//! Seeds: stable 64-bit hashes of the fields a decision depends on.
//!
//! The hasher is std's `DefaultHasher` as `DefaultHasher::new` makes it:
//! every such hasher starts in the same state, so a hash depends on what
//! is fed alone. A text is fed as its UTF-8 bytes followed by the byte
//! `0xff`, which no UTF-8 text holds, so that two lists of texts feed the
//! same bytes only when they are the same list. A number is fed as its
//! eight bytes, least significant first. Every seed ends with a text of
//! its own, or with a number, so that different decisions draw from
//! different streams.

use std::collections::hash_map::DefaultHasher;
use std::hash::Hasher;
use vstd::bytes::{spec_u64_to_le_bytes, u64_to_le_bytes};
use vstd::prelude::*;
use vstd::std_specs::hash::DefaultHasherAdditionalSpecFns;
use vstd::utf8::encode_utf8;

verus! {

/// What has been written to a hasher after a text is fed to it.
pub open spec fn feed_text(writes: Seq<Seq<u8>>, text: Seq<char>) -> Seq<Seq<u8>> {
    writes.push(encode_utf8(text)).push(seq![0xffu8])
}

/// What has been written to a hasher after a number is fed to it.
pub open spec fn feed_number(writes: Seq<Seq<u8>>, n: u64) -> Seq<Seq<u8>> {
    writes.push(spec_u64_to_le_bytes(n))
}

/// The hash of a list of writes.
pub open spec fn digest(writes: Seq<Seq<u8>>) -> u64 {
    DefaultHasher::spec_finish(writes)
}

/// The seed of the decisions that depend on the card alone.
pub open spec fn card_seed(card_bin: Seq<char>, card_last4: Seq<char>) -> u64 {
    digest(feed_text(feed_text(feed_text(Seq::empty(), card_bin), card_last4), "card_seed"@))
}

/// The seed of the decisions that depend on the request and the provider.
/// `purpose` keeps the streams of different decisions apart.
pub open spec fn request_seed(
    transaction_id: Seq<char>,
    psp_id: Seq<char>,
    purpose: Seq<char>,
) -> u64 {
    digest(feed_text(feed_text(feed_text(Seq::empty(), transaction_id), psp_id), purpose))
}

/// The seed of the success roll: card, provider and amount.
pub open spec fn psp_seed(
    card_bin: Seq<char>,
    card_last4: Seq<char>,
    psp_id: Seq<char>,
    amount_cents: u64,
) -> u64 {
    digest(
        feed_number(
            feed_text(feed_text(feed_text(Seq::empty(), card_bin), card_last4), psp_id),
            amount_cents,
        ),
    )
}

/// The hash behind a transaction identifier: card, customer, and the amount
/// in the 64 bits in which it arrived.
pub open spec fn identity_seed(
    card_bin: Seq<char>,
    card_last4: Seq<char>,
    customer_id: Seq<char>,
    amount_bits: u64,
) -> u64 {
    digest(
        feed_number(
            feed_text(feed_text(feed_text(Seq::empty(), card_bin), card_last4), customer_id),
            amount_bits,
        ),
    )
}

/// Feeds a text to a hasher.
pub(crate) fn write_text(hasher: &mut DefaultHasher, text: &str)
    ensures
        final(hasher)@ == feed_text(old(hasher)@, text@),
{
    hasher.write(text.as_bytes());
    let end: [u8; 1] = [0xff];
    hasher.write(end.as_slice());
    assert(end@ =~= seq![0xffu8]);
}

/// Feeds a number to a hasher.
pub(crate) fn write_number(hasher: &mut DefaultHasher, n: u64)
    ensures
        final(hasher)@ == feed_number(old(hasher)@, n),
{
    let bytes = u64_to_le_bytes(n);
    hasher.write(bytes.as_slice());
}

/// Hashes three texts in order.
pub fn hash_texts(first: &str, second: &str, third: &str) -> (seed: u64)
    ensures
        seed == digest(
            feed_text(feed_text(feed_text(Seq::empty(), first@), second@), third@),
        ),
{
    let mut hasher = DefaultHasher::new();
    write_text(&mut hasher, first);
    write_text(&mut hasher, second);
    write_text(&mut hasher, third);
    hasher.finish()
}

/// Hashes three texts and a number in order.
pub fn hash_texts_and_number(first: &str, second: &str, third: &str, n: u64) -> (seed: u64)
    ensures
        seed == digest(
            feed_number(
                feed_text(feed_text(feed_text(Seq::empty(), first@), second@), third@),
                n,
            ),
        ),
{
    let mut hasher = DefaultHasher::new();
    write_text(&mut hasher, first);
    write_text(&mut hasher, second);
    write_text(&mut hasher, third);
    write_number(&mut hasher, n);
    hasher.finish()
}

} // verus!
