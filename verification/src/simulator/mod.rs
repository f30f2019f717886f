//! The seeded model of payment service providers.
//!
//! A provider's answer to a transaction is a function of the two. Six
//! seeded draws are made, each from a generator of its own, and the answer
//! is decided from them in a fixed order: a card that always fails fails at
//! every provider, then the provider may be down, then the provider's own
//! success rate is rolled, and a failed roll picks a soft decline reason.

pub mod config;
pub mod seeds;

use crate::models::psp::{DeclineReason, PspConfig, PspConfigView, PspResponse, PspResponseView};
use crate::models::transaction::{Transaction, TransactionView};
use crate::seeded::{
    below_basis_points, below_percent, first_two_words, first_word, first_word_of,
    is_below_basis_points, is_below_percent, next_in_range, range_step, roll_of, second_word,
    seed_rng, seeded_state, unit_roll,
};
use crate::simulator::config::{decline_distribution, get_decline_distribution, lemma_distribution_sound, DeclineWeight};
use crate::simulator::seeds::{card_seed, hash_texts, hash_texts_and_number, psp_seed, request_seed};
use vstd::prelude::*;

verus! {

/// Share of cards that fail at every provider, in percent.
pub const HARD_DECLINE_RATE_PCT: u64 = 6;

/// Share of requests that find a provider down, in percent.
pub const PSP_UNAVAILABLE_RATE_PCT: u64 = 8;

/// The six draws that decide one answer. Every roll is a numerator over
/// [`UNIT`].
#[derive(Clone, Copy, Debug, PartialEq, Eq, Structural)]
pub struct Rolls {
    /// The latency of the answer, in milliseconds.
    pub latency_ms: u64,
    /// Decides whether the card fails at every provider.
    pub hard_gate: u64,
    /// Picks the hard decline reason of such a card.
    pub hard_reason: u64,
    /// Decides whether the provider is down for this request.
    pub unavailable: u64,
    /// Rolled against the provider's success rate.
    pub success: u64,
    /// Picks the soft decline reason after a failed success roll.
    pub soft_reason: u64,
}

/// The hard decline reason a roll picks: insufficient funds with weight 45,
/// card expired 30, invalid card 15, stolen card 10.
pub open spec fn hard_reason_of(roll: u64) -> DeclineReason {
    if below_percent(roll, 45) {
        DeclineReason::InsufficientFunds
    } else if below_percent(roll, 75) {
        DeclineReason::CardExpired
    } else if below_percent(roll, 90) {
        DeclineReason::InvalidCard
    } else {
        DeclineReason::StolenCard
    }
}

/// The reason a roll picks from a weighted list, looking from entry `from`
/// on, where the entries before it weigh `before` percent together: the
/// first entry whose cumulative weight exceeds the roll. A roll beyond all
/// weights picks the last entry, and processor declined from an empty list.
pub open spec fn pick_reason(weights: Seq<DeclineWeight>, roll: u64, from: int, before: nat) -> DeclineReason
    decreases weights.len() - from,
{
    if from < 0 || from >= weights.len() {
        if weights.len() > 0 {
            weights.last().reason
        } else {
            DeclineReason::ProcessorDeclined
        }
    } else {
        let upto = before + weights[from].weight_pct as nat;
        if below_percent(roll, upto) {
            weights[from].reason
        } else {
            pick_reason(weights, roll, from + 1, upto)
        }
    }
}

/// The soft decline reason a roll picks for a provider.
pub open spec fn soft_reason_of(psp_id: Seq<char>, roll: u64) -> DeclineReason {
    pick_reason(decline_distribution(psp_id), roll, 0, 0)
}

/// A response of the provider with the given outcome.
pub open spec fn response_of(
    psp: PspConfigView,
    decline_reason: Option<DeclineReason>,
    latency_ms: u64,
) -> PspResponseView {
    PspResponseView {
        psp_id: psp.id,
        psp_name: psp.name,
        approved: decline_reason is None,
        decline_reason,
        latency_ms,
    }
}

/// The outcome that six draws decide: the absence of a decline reason is
/// approval.
pub open spec fn outcome_of(psp: PspConfigView, rolls: Rolls) -> Option<DeclineReason> {
    if below_percent(rolls.hard_gate, HARD_DECLINE_RATE_PCT as nat) {
        Some(hard_reason_of(rolls.hard_reason))
    } else if below_percent(rolls.unavailable, PSP_UNAVAILABLE_RATE_PCT as nat) {
        Some(DeclineReason::PspUnavailable)
    } else if below_basis_points(rolls.success, psp.success_rate_bps as nat) {
        None
    } else {
        Some(soft_reason_of(psp.id, rolls.soft_reason))
    }
}

/// The response that six draws decide.
pub open spec fn decide_model(psp: PspConfigView, rolls: Rolls) -> PspResponseView {
    response_of(psp, outcome_of(psp, rolls), rolls.latency_ms)
}

/// The six draws made for a transaction at a provider. Latency and
/// availability are seeded by the request, the hard decline gate and its
/// reason by the card alone, success and soft reason by card, provider and
/// amount.
pub open spec fn rolls_model(tx: TransactionView, psp: PspConfigView) -> Rolls {
    let card = card_seed(tx.card_bin, tx.card_last4);
    let latency = request_seed(tx.id, psp.id, "latency"@);
    let available = request_seed(tx.id, psp.id, "unavailable_check"@);
    let success = psp_seed(tx.card_bin, tx.card_last4, psp.id, tx.amount_cents);
    Rolls {
        latency_ms: range_step(seeded_state(latency), psp.latency_min_ms, psp.latency_max_ms).0,
        hard_gate: unit_roll(first_word(card)),
        hard_reason: unit_roll(first_word(next_seed(card))),
        unavailable: unit_roll(first_word(available)),
        success: unit_roll(first_word(success)),
        soft_reason: unit_roll(second_word(success)),
    }
}

/// The seed after `seed`, wrapping around at the end.
pub open spec fn next_seed(seed: u64) -> u64 {
    if seed == u64::MAX {
        0
    } else {
        (seed + 1) as u64
    }
}

/// The response of a provider to a transaction.
#[verifier::opaque]
pub open spec fn process_model(tx: TransactionView, psp: PspConfigView) -> PspResponseView {
    decide_model(psp, rolls_model(tx, psp))
}

/// Every response of the model is approved exactly when it carries no
/// decline reason, and comes from the provider asked.
pub proof fn lemma_process_model_valid(tx: TransactionView, psp: PspConfigView)
    ensures
        process_model(tx, psp).valid(),
        process_model(tx, psp).psp_id == psp.id,
        process_model(tx, psp).psp_name == psp.name,
{
    reveal(process_model);
}

/// The hard decline reason of a card, if the card is one that fails at
/// every provider.
pub open spec fn card_verdict(card_bin: Seq<char>, card_last4: Seq<char>) -> Option<DeclineReason> {
    let card = card_seed(card_bin, card_last4);
    if below_percent(unit_roll(first_word(card)), HARD_DECLINE_RATE_PCT as nat) {
        Some(hard_reason_of(unit_roll(first_word(next_seed(card)))))
    } else {
        None
    }
}

/// A response carries a hard decline reason exactly when the card is one
/// that fails at every provider, and then the reason is the card's.
pub proof fn lemma_hard_decline_is_the_cards(tx: TransactionView, psp: PspConfigView)
    ensures
        match card_verdict(tx.card_bin, tx.card_last4) {
            Some(reason) => reason.spec_is_hard() && process_model(tx, psp).decline_reason
                == Some(reason) && !process_model(tx, psp).approved,
            None => match process_model(tx, psp).decline_reason {
                Some(reason) => !reason.spec_is_hard(),
                None => true,
            },
        },
{
    reveal(process_model);
    lemma_soft_reason_is_soft(psp.id, rolls_model(tx, psp).soft_reason);
}

/// A transaction that one provider declines for a hard reason is declined
/// by every provider, for the same reason.
pub proof fn lemma_hard_decline_at_every_provider(
    tx: TransactionView,
    first: PspConfigView,
    second: PspConfigView,
)
    requires
        process_model(tx, first).decline_reason is Some,
        process_model(tx, first).decline_reason->0.spec_is_hard(),
    ensures
        !process_model(tx, second).approved,
        process_model(tx, second).decline_reason == process_model(tx, first).decline_reason,
{
    lemma_hard_decline_is_the_cards(tx, first);
    lemma_hard_decline_is_the_cards(tx, second);
}

/// Picks the hard decline reason for a roll.
pub fn select_hard_reason(roll: u64) -> (reason: DeclineReason)
    ensures
        reason == hard_reason_of(roll),
        reason.spec_is_hard(),
{
    if is_below_percent(roll, 45) {
        DeclineReason::InsufficientFunds
    } else if is_below_percent(roll, 75) {
        DeclineReason::CardExpired
    } else if is_below_percent(roll, 90) {
        DeclineReason::InvalidCard
    } else {
        DeclineReason::StolenCard
    }
}

/// A reason picked from a list holds a reason of the list, or processor
/// declined when the list is empty.
pub proof fn lemma_pick_reason_in_list(weights: Seq<DeclineWeight>, roll: u64, from: int, before: nat)
    ensures
        weights.len() == 0 ==> pick_reason(weights, roll, from, before)
            == DeclineReason::ProcessorDeclined,
        weights.len() > 0 ==> exists|i: int|
            0 <= i < weights.len() && pick_reason(weights, roll, from, before)
                == (#[trigger] weights[i]).reason,
    decreases weights.len() - from,
{
    if from < 0 || from >= weights.len() {
        if weights.len() > 0 {
            assert(weights.last() == weights[weights.len() - 1]);
        }
    } else {
        let upto = before + weights[from].weight_pct as nat;
        if below_percent(roll, upto) {
        } else {
            lemma_pick_reason_in_list(weights, roll, from + 1, upto);
        }
    }
}

/// The soft decline reason of any provider is one of the four soft ones.
pub proof fn lemma_soft_reason_is_soft(psp_id: Seq<char>, roll: u64)
    ensures
        soft_reason_of(psp_id, roll).spec_is_soft(),
{
    lemma_distribution_sound(psp_id);
    lemma_pick_reason_in_list(decline_distribution(psp_id), roll, 0, 0);
}

/// Picks a reason from a weighted list by cumulative weight.
pub fn select_weighted_reason(weights: &Vec<DeclineWeight>, roll: u64) -> (reason: DeclineReason)
    ensures
        reason == pick_reason(weights@, roll, 0, 0),
{
    let mut cumulative: u64 = 0;
    let mut i: usize = 0;
    while i < weights.len()
        invariant
            i <= weights.len(),
            pick_reason(weights@, roll, 0, 0) == pick_reason(
                weights@,
                roll,
                i as int,
                cumulative as nat,
            ),
        decreases weights.len() - i,
    {
        let weight = weights[i].weight_pct as u64;
        if cumulative > u64::MAX - weight {
            // The cumulative weight is beyond any roll.
            assert(below_percent(roll, (cumulative + weight) as nat)) by (nonlinear_arith)
                requires
                    cumulative + weight > u64::MAX,
                    roll <= u64::MAX,
            ;
            return weights[i].reason;
        }
        cumulative = cumulative + weight;
        if is_below_percent(roll, cumulative) {
            return weights[i].reason;
        }
        i = i + 1;
    }
    if weights.len() > 0 {
        weights[weights.len() - 1].reason
    } else {
        DeclineReason::ProcessorDeclined
    }
}

/// Decides a provider's response from the six draws.
pub fn decide(psp: &PspConfig, rolls: &Rolls) -> (response: PspResponse)
    ensures
        response@ == decide_model(psp@, *rolls),
        response@.valid(),
        response.latency_ms == rolls.latency_ms,
{
    let decline_reason = if is_below_percent(rolls.hard_gate, HARD_DECLINE_RATE_PCT) {
        Some(select_hard_reason(rolls.hard_reason))
    } else if is_below_percent(rolls.unavailable, PSP_UNAVAILABLE_RATE_PCT) {
        Some(DeclineReason::PspUnavailable)
    } else if is_below_basis_points(rolls.success, psp.success_rate_bps) {
        None
    } else {
        let weights = get_decline_distribution(psp.id.as_str());
        Some(select_weighted_reason(&weights, rolls.soft_reason))
    };
    PspResponse {
        psp_id: psp.id.clone(),
        psp_name: psp.name.clone(),
        approved: decline_reason.is_none(),
        decline_reason,
        latency_ms: rolls.latency_ms,
    }
}

/// The provider simulator. It holds no state: every answer is derived from
/// seeds.
#[derive(Clone, Copy, Debug)]
pub struct PspSimulator;

impl PspSimulator {
    /// A simulator.
    pub fn new() -> (simulator: Self)
        ensures
            simulator == PspSimulator,
    {
        PspSimulator
    }

    /// The seed of the decisions that depend on the card alone.
    pub fn make_card_seed(&self, card_bin: &str, card_last4: &str) -> (seed: u64)
        ensures
            seed == card_seed(card_bin@, card_last4@),
    {
        hash_texts(card_bin, card_last4, "card_seed")
    }

    /// The seed of the success roll: card, provider and amount.
    pub fn make_psp_seed(
        &self,
        card_bin: &str,
        card_last4: &str,
        psp_id: &str,
        amount_cents: u64,
    ) -> (seed: u64)
        ensures
            seed == psp_seed(card_bin@, card_last4@, psp_id@, amount_cents),
    {
        hash_texts_and_number(card_bin, card_last4, psp_id, amount_cents)
    }

    /// Draws the latency of a provider's answer to a transaction, uniformly
    /// from the provider's band.
    pub fn simulate_latency(&self, transaction: &Transaction, psp: &PspConfig) -> (latency_ms: u64)
        requires
            psp.latency_min_ms <= psp.latency_max_ms,
        ensures
            latency_ms == rolls_model(transaction@, psp@).latency_ms,
            psp.latency_min_ms <= latency_ms <= psp.latency_max_ms,
    {
        let seed = hash_texts(transaction.id.as_str(), psp.id.as_str(), "latency");
        let mut rng = seed_rng(seed);
        next_in_range(&mut rng, psp.latency_min_ms, psp.latency_max_ms)
    }

    /// Makes the six draws for a transaction at a provider.
    pub fn draw(&self, transaction: &Transaction, psp: &PspConfig) -> (rolls: Rolls)
        requires
            psp.latency_min_ms <= psp.latency_max_ms,
        ensures
            rolls == rolls_model(transaction@, psp@),
            psp.latency_min_ms <= rolls.latency_ms <= psp.latency_max_ms,
    {
        let latency_ms = self.simulate_latency(transaction, psp);
        let card = self.make_card_seed(transaction.card_bin.as_str(), transaction.card_last4.as_str());
        let gate = first_word_of(card);
        let reason = first_word_of(card.wrapping_add(1));
        let available = first_word_of(
            hash_texts(transaction.id.as_str(), psp.id.as_str(), "unavailable_check"),
        );
        let success = first_two_words(
            self.make_psp_seed(
                transaction.card_bin.as_str(),
                transaction.card_last4.as_str(),
                psp.id.as_str(),
                transaction.amount_cents,
            ),
        );
        Rolls {
            latency_ms,
            hard_gate: roll_of(gate),
            hard_reason: roll_of(reason),
            unavailable: roll_of(available),
            success: roll_of(success.0),
            soft_reason: roll_of(success.1),
        }
    }

    /// The provider's response to the transaction. The same transaction and
    /// provider always give the same response.
    pub fn process(&self, transaction: &Transaction, psp: &PspConfig) -> (response: PspResponse)
        requires
            psp.latency_min_ms <= psp.latency_max_ms,
        ensures
            response@ == process_model(transaction@, psp@),
            response@.valid(),
            psp.latency_min_ms <= response.latency_ms <= psp.latency_max_ms,
    {
        let rolls = self.draw(transaction, psp);
        proof {
            reveal(process_model);
        }
        decide(psp, &rolls)
    }
}

impl Default for PspSimulator {
    fn default() -> (simulator: Self)
        ensures
            simulator == PspSimulator,
    {
        PspSimulator
    }
}

} // verus!
