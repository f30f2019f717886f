//! The test-data generator: a seeded batch of transactions spread evenly
//! over the three countries.
//!
//! One generator, seeded with [`DATA_SEED`], gives all draws of a batch in
//! a fixed order, so that the same count always gives the same batch.

use crate::models::transaction::{Country, Transaction, TransactionView};
use crate::report::ratio::rounded_ratio;
use crate::seeded::{
    below_percent, is_below_percent, next_in_range, next_in_small_range, next_word, range_step,
    rng_state, roll_of, seed_rng, seeded_state, small_range_step, unit_roll, word_step,
};
use crate::text::{
    fixed_digits, lemma_fixed_digits_len, padded_decimal, push_fixed, push_padded,
};
use rand::rngs::StdRng;
use vstd::prelude::*;

verus! {

/// The seed of every batch.
pub const DATA_SEED: u64 = 42;

/// The size of the standard batch.
pub const STANDARD_BATCH: usize = 210;

/// Two to the power 52: a fraction `f` stands for `f / FRACTION_UNIT`.
pub const FRACTION_UNIT: u64 = 4503599627370496;

/// What is drawn for one transaction.
#[derive(Clone, Copy, Debug, PartialEq, Eq, Structural)]
pub struct Draws {
    /// Which of the country's three card prefixes is taken.
    pub bin_index: u64,
    /// The last four digits of the card, as a number.
    pub last4: u32,
    /// The number of the customer.
    pub customer: u32,
    /// The amount in cents.
    pub amount_cents: u64,
    /// The minute of the hour.
    pub minute: u32,
    /// The second of the minute.
    pub second: u32,
}

impl Draws {
    /// True when every draw lies in its range.
    pub open spec fn in_range(self) -> bool {
        &&& self.bin_index < 3
        &&& self.last4 < 10000
        &&& 1 <= self.customer <= 15
        &&& 1000 <= self.amount_cents <= 50000
        &&& self.minute < 60
        &&& self.second < 60
    }
}

/// The country of the transaction at a position: Brazil, Mexico, Colombia
/// in turn.
pub open spec fn country_at(i: nat) -> Country {
    if i % 3 == 0 {
        Country::Brazil
    } else if i % 3 == 1 {
        Country::Mexico
    } else {
        Country::Colombia
    }
}

/// The three card prefixes of a country.
pub open spec fn bins_of(country: Country) -> Seq<Seq<char>> {
    match country {
        Country::Brazil => seq!["411111"@, "510510"@, "376411"@],
        Country::Mexico => seq!["424242"@, "551234"@, "371449"@],
        Country::Colombia => seq!["431940"@, "520082"@, "378282"@],
    }
}

/// The range of customer numbers a roll selects: three in ten transactions
/// come from customers 1 to 3, three in ten from 4 to 8, the rest from 9
/// to 15.
pub open spec fn customer_tier_of(roll: u64) -> (u32, u32) {
    if below_percent(roll, 30) {
        (1u32, 3u32)
    } else if below_percent(roll, 60) {
        (4u32, 8u32)
    } else {
        (9u32, 15u32)
    }
}

/// The band of amounts a roll selects, as its lower end and its width in
/// cents: four in ten amounts lie between 10 and 100, thirty-five in a
/// hundred between 100 and 300, the rest between 300 and 500.
pub open spec fn amount_band_of(roll: u64) -> (u64, u64) {
    if below_percent(roll, 40) {
        (1000u64, 9000u64)
    } else if below_percent(roll, 75) {
        (10000u64, 20000u64)
    } else {
        (30000u64, 20000u64)
    }
}

/// The amount at a fraction of a band, rounded to the cent.
pub open spec fn amount_in_band_of(low_cents: u64, span_cents: u64, fraction: u64) -> nat {
    low_cents as nat + rounded_ratio(fraction as nat * span_cents as nat, FRACTION_UNIT as nat)
}

/// The hour of the transaction at a position: the batch is spread over the
/// twelve hours from eight o'clock.
pub open spec fn hour_at(i: nat, count: nat) -> nat {
    if count == 0 {
        8
    } else {
        8 + (i * 12) / count
    }
}

/// The text of a time of day of 2025-01-15 in UTC.
pub open spec fn timestamp_of(hour: nat, minute: nat, second: nat) -> Seq<char> {
    "2025-01-15T"@ + fixed_digits(hour, 10, 2) + ":"@ + fixed_digits(minute, 10, 2) + ":"@
        + fixed_digits(second, 10, 2) + "Z"@
}

/// The transaction at a position of a batch, given its draws.
pub open spec fn transaction_of(i: nat, count: nat, draws: Draws) -> TransactionView {
    TransactionView {
        id: "txn_"@ + padded_decimal(i + 1, 4),
        amount_cents: draws.amount_cents,
        currency: country_at(i).spec_currency(),
        country: country_at(i),
        card_bin: bins_of(country_at(i))[draws.bin_index as int],
        card_last4: fixed_digits(draws.last4 as nat, 10, 4),
        customer_id: "cust_"@ + padded_decimal(draws.customer as nat, 3),
        timestamp: timestamp_of(hour_at(i, count), draws.minute as nat, draws.second as nat),
    }
}

/// True when a transaction is the one at a position of a batch for some
/// draws in range.
pub open spec fn is_made_at(transaction: TransactionView, i: nat, count: nat) -> bool {
    exists|draws: Draws| draws.in_range() && transaction == transaction_of(i, count, draws)
}

/// The draws that a generator in a given state gives for one transaction,
/// and the state it is left in. The order is: card prefix, last four
/// digits, customer tier and customer, amount band and amount, minute,
/// second.
pub open spec fn draws_model(state: Seq<u32>) -> (Draws, Seq<u32>) {
    let (bin_index, s1) = range_step(state, 0, 2);
    let (last4, s2) = small_range_step(s1, 0, 9999);
    let (tier_word, s3) = word_step(s2);
    let tier = customer_tier_of(unit_roll(tier_word));
    let (customer, s4) = small_range_step(s3, tier.0, tier.1);
    let (band_word, s5) = word_step(s4);
    let band = amount_band_of(unit_roll(band_word));
    let (amount_word, s6) = word_step(s5);
    let (minute, s7) = small_range_step(s6, 0, 59);
    let (second, s8) = small_range_step(s7, 0, 59);
    (
        Draws {
            bin_index,
            last4,
            customer,
            amount_cents: amount_in_band_of(band.0, band.1, amount_word / 4096) as u64,
            minute,
            second,
        },
        s8,
    )
}

/// The transactions from position `i` on of a batch of `count`, made by a
/// generator in the given state.
pub open spec fn batch_from(state: Seq<u32>, i: nat, count: nat) -> Seq<TransactionView>
    decreases count - i,
{
    if i >= count {
        Seq::empty()
    } else {
        let (draws, next) = draws_model(state);
        seq![transaction_of(i, count, draws)] + batch_from(next, i + 1, count)
    }
}

/// The batch of `count` transactions.
pub open spec fn test_data(count: nat) -> Seq<TransactionView> {
    batch_from(seeded_state(DATA_SEED), 0, count)
}

/// A transaction made from draws in range is a valid one of the country of
/// its position, with an amount between 10.00 and 500.00.
pub proof fn lemma_transaction_shape(i: nat, count: nat, draws: Draws)
    requires
        draws.in_range(),
    ensures
        transaction_of(i, count, draws).valid(),
        transaction_of(i, count, draws).country == country_at(i),
        1000 <= transaction_of(i, count, draws).amount_cents <= 50000,
        transaction_of(i, count, draws).card_last4.len() == 4,
{
    let tx = transaction_of(i, count, draws);
    reveal_strlit("txn_");
    reveal_strlit("cust_");
    reveal_strlit("2025-01-15T");
    reveal_strlit("411111");
    reveal_strlit("510510");
    reveal_strlit("376411");
    reveal_strlit("424242");
    reveal_strlit("551234");
    reveal_strlit("371449");
    reveal_strlit("431940");
    reveal_strlit("520082");
    reveal_strlit("378282");
    lemma_fixed_digits_len(draws.last4 as nat, 10, 4);
    assert(tx.id.len() >= 4);
    assert(tx.customer_id.len() >= 5);
    assert(tx.timestamp.len() >= 11);
    assert(tx.card_bin.len() == 6);
}

/// Selects the range of customer numbers for a roll.
pub fn customer_tier(roll: u64) -> (tier: (u32, u32))
    ensures
        tier == customer_tier_of(roll),
        1 <= tier.0 <= tier.1 <= 15,
{
    if is_below_percent(roll, 30) {
        (1, 3)
    } else if is_below_percent(roll, 60) {
        (4, 8)
    } else {
        (9, 15)
    }
}

/// Selects the band of amounts for a roll.
pub fn amount_band(roll: u64) -> (band: (u64, u64))
    ensures
        band == amount_band_of(roll),
        1000 <= band.0,
        band.0 + band.1 <= 50000,
{
    if is_below_percent(roll, 40) {
        (1000, 9000)
    } else if is_below_percent(roll, 75) {
        (10000, 20000)
    } else {
        (30000, 20000)
    }
}

/// The amount at a fraction of a band, rounded to the cent.
pub fn amount_in_band(low_cents: u64, span_cents: u64, fraction: u64) -> (amount_cents: u64)
    requires
        fraction < FRACTION_UNIT,
        low_cents + span_cents <= u64::MAX,
    ensures
        amount_cents == amount_in_band_of(low_cents, span_cents, fraction),
        low_cents <= amount_cents <= low_cents + span_cents,
{
    let unit = FRACTION_UNIT as u128;
    assert(fraction * span_cents <= FRACTION_UNIT * span_cents) by (nonlinear_arith)
        requires
            fraction < FRACTION_UNIT,
    ;
    assert(FRACTION_UNIT * span_cents <= FRACTION_UNIT * u64::MAX) by (nonlinear_arith)
        requires
            span_cents <= u64::MAX,
    ;
    let scaled = fraction as u128 * span_cents as u128;
    let whole = scaled / unit;
    let left = scaled % unit;
    proof {
        vstd::arithmetic::div_mod::lemma_fundamental_div_mod(scaled as int, unit as int);
        if whole >= span_cents {
            assert(unit * whole >= unit * span_cents) by (nonlinear_arith)
                requires
                    whole >= span_cents,
            ;
            assert(left == 0);
            if whole > span_cents {
                assert(unit * whole >= unit * span_cents + unit) by (nonlinear_arith)
                    requires
                        whole >= span_cents + 1,
                ;
            }
        }
    }
    let half_up: u128 = if 2 * left >= unit {
        1
    } else {
        0
    };
    (low_cents as u128 + whole + half_up) as u64
}

/// The card prefix of a country at an index.
pub fn bin_at(country: Country, index: u64) -> (bin: &'static str)
    requires
        index < 3,
    ensures
        bin@ == bins_of(country)[index as int],
{
    match country {
        Country::Brazil => if index == 0 {
            "411111"
        } else if index == 1 {
            "510510"
        } else {
            "376411"
        },
        Country::Mexico => if index == 0 {
            "424242"
        } else if index == 1 {
            "551234"
        } else {
            "371449"
        },
        Country::Colombia => if index == 0 {
            "431940"
        } else if index == 1 {
            "520082"
        } else {
            "378282"
        },
    }
}

/// Makes the transaction at a position of a batch from its draws.
pub fn compose_transaction(i: usize, count: usize, draws: &Draws) -> (transaction: Transaction)
    requires
        i < count,
        draws.in_range(),
    ensures
        transaction@ == transaction_of(i as nat, count as nat, *draws),
{
    let country = if i % 3 == 0 {
        Country::Brazil
    } else if i % 3 == 1 {
        Country::Mexico
    } else {
        Country::Colombia
    };
    let mut id = String::from_str("txn_");
    push_padded(&mut id, (i + 1) as u64, 4);
    let mut card_last4 = String::new();
    push_fixed(&mut card_last4, draws.last4 as u64, 10, 4);
    let mut customer_id = String::from_str("cust_");
    push_padded(&mut customer_id, draws.customer as u64, 3);
    let hour = 8 + (i as u128 * 12) / (count as u128);
    proof {
        assert(i * 12 < count * 12);
        assert((i * 12) / (count as int) < 12) by (nonlinear_arith)
            requires
                0 <= i * 12 < count * 12,
                count > 0,
        ;
    }
    let mut timestamp = String::from_str("2025-01-15T");
    push_fixed(&mut timestamp, hour as u64, 10, 2);
    timestamp.append(":");
    push_fixed(&mut timestamp, draws.minute as u64, 10, 2);
    timestamp.append(":");
    push_fixed(&mut timestamp, draws.second as u64, 10, 2);
    timestamp.append("Z");
    proof {
        assert(card_last4@ =~= fixed_digits(draws.last4 as nat, 10, 4));
        assert(timestamp@ =~= timestamp_of(
            hour_at(i as nat, count as nat),
            draws.minute as nat,
            draws.second as nat,
        ));
    }
    Transaction {
        id,
        amount_cents: draws.amount_cents,
        currency: country.currency(),
        country,
        card_bin: String::from_str(bin_at(country, draws.bin_index)),
        card_last4,
        customer_id,
        timestamp,
    }
}

/// Makes the draws of one transaction.
fn draw_next(rng: &mut StdRng) -> (draws: Draws)
    ensures
        (draws, rng_state(*final(rng))) == draws_model(rng_state(*old(rng))),
        draws.in_range(),
{
    let bin_index = next_in_range(rng, 0, 2);
    let last4 = next_in_small_range(rng, 0, 9999);
    let tier = customer_tier(roll_of(next_word(rng)));
    let customer = next_in_small_range(rng, tier.0, tier.1);
    let band = amount_band(roll_of(next_word(rng)));
    let amount_cents = amount_in_band(band.0, band.1, next_word(rng) / 4096);
    let minute = next_in_small_range(rng, 0, 59);
    let second = next_in_small_range(rng, 0, 59);
    Draws { bin_index, last4, customer, amount_cents, minute, second }
}

/// Generates a batch of `count` transactions: the countries in turn, a
/// card prefix of the country, four random last digits, one of fifteen
/// customers, an amount between 10.00 and 500.00, and a time of day that
/// moves from 08:00 to 20:00 over the batch.
pub fn generate_test_data(count: usize) -> (batch: Vec<Transaction>)
    ensures
        batch.deep_view() == test_data(count as nat),
        batch.len() == count,
        forall|i: int|
            0 <= i < count ==> is_made_at((#[trigger] batch[i])@, i as nat, count as nat),
{
    let mut rng = seed_rng(DATA_SEED);
    let mut batch: Vec<Transaction> = Vec::new();
    let mut i: usize = 0;
    assert(batch.deep_view() + batch_from(rng_state(rng), 0, count as nat) =~= test_data(
        count as nat,
    ));
    while i < count
        invariant
            i <= count,
            batch.len() == i,
            test_data(count as nat) == batch.deep_view() + batch_from(
                rng_state(rng),
                i as nat,
                count as nat,
            ),
            forall|k: int|
                0 <= k < i ==> is_made_at((#[trigger] batch[k])@, k as nat, count as nat),
        decreases count - i,
    {
        let ghost before = batch.deep_view();
        let ghost before_batch = batch@;
        let ghost state = rng_state(rng);
        let draws = draw_next(&mut rng);
        let transaction = compose_transaction(i, count, &draws);
        batch.push(transaction);
        proof {
            let made = transaction_of(i as nat, count as nat, draws);
            assert(batch.deep_view() =~= before.push(made));
            assert(batch_from(state, i as nat, count as nat) == seq![made] + batch_from(
                rng_state(rng),
                (i + 1) as nat,
                count as nat,
            ));
            assert(before + (seq![made] + batch_from(
                rng_state(rng),
                (i + 1) as nat,
                count as nat,
            )) =~= before.push(made) + batch_from(
                rng_state(rng),
                (i + 1) as nat,
                count as nat,
            ));
            assert(is_made_at(batch[i as int]@, i as nat, count as nat));
            assert forall|k: int| 0 <= k < i + 1 implies is_made_at(
                (#[trigger] batch[k])@,
                k as nat,
                count as nat,
            ) by {
                if k < i {
                    assert(batch[k] == before_batch[k]);
                }
            }
        }
        i = i + 1;
    }
    assert(batch.deep_view() + Seq::<TransactionView>::empty() =~= batch.deep_view());
    batch
}

/// The standard batch of 210 transactions.
pub fn get_test_dataset() -> (batch: Vec<Transaction>)
    ensures
        batch.deep_view() == test_data(STANDARD_BATCH as nat),
        batch.len() == STANDARD_BATCH,
{
    generate_test_data(STANDARD_BATCH)
}

} // verus!
