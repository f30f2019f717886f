//! Routing strategies, and the record of one routed transaction.

use crate::models::psp::DeclineReason;
use vstd::prelude::*;

verus! {

/// How the providers of a country are ordered before they are tried.
#[derive(Clone, Copy, Debug, PartialEq, Eq, Structural, Hash)]
pub enum RoutingStrategy {
    /// Highest success rate first.
    OptimizeForApprovals,
    /// Lowest total fee first.
    OptimizeForCost,
    /// Best weighted score of success rate and fee first.
    Balanced,
}

impl Default for RoutingStrategy {
    fn default() -> (strategy: Self)
        ensures
            strategy == RoutingStrategy::OptimizeForApprovals,
    {
        RoutingStrategy::OptimizeForApprovals
    }
}

/// The strategy that a text names, if any.
pub open spec fn spec_parse_strategy(s: Seq<char>) -> Option<RoutingStrategy> {
    if s == "OptimizeForApprovals"@ {
        Some(RoutingStrategy::OptimizeForApprovals)
    } else if s == "OptimizeForCost"@ {
        Some(RoutingStrategy::OptimizeForCost)
    } else if s == "Balanced"@ {
        Some(RoutingStrategy::Balanced)
    } else {
        None
    }
}

/// Reads a strategy name. Only `OptimizeForApprovals`, `OptimizeForCost`
/// and `Balanced` are accepted, in exactly this spelling.
pub fn parse_strategy(s: &str) -> (parsed: Option<RoutingStrategy>)
    ensures
        parsed == spec_parse_strategy(s@),
{
    if crate::text::same_text(s, "OptimizeForApprovals") {
        Some(RoutingStrategy::OptimizeForApprovals)
    } else if crate::text::same_text(s, "OptimizeForCost") {
        Some(RoutingStrategy::OptimizeForCost)
    } else if crate::text::same_text(s, "Balanced") {
        Some(RoutingStrategy::Balanced)
    } else {
        None
    }
}

/// One provider attempt within a routing.
#[derive(Debug)]
pub struct RoutingAttempt {
    /// Identifier of the provider tried.
    pub psp_id: String,
    /// Name of the provider tried.
    pub psp_name: String,
    /// Whether this attempt was approved.
    pub approved: bool,
    /// Why it was not; absent when it was approved.
    pub decline_reason: Option<DeclineReason>,
    /// How long the attempt took, in milliseconds.
    pub latency_ms: u64,
    /// Number of the attempt, counted from one; a cascade carries the
    /// number that the next counted attempt will get.
    pub attempt_number: usize,
}

/// The mathematical value of a [`RoutingAttempt`].
pub ghost struct RoutingAttemptView {
    pub psp_id: Seq<char>,
    pub psp_name: Seq<char>,
    pub approved: bool,
    pub decline_reason: Option<DeclineReason>,
    pub latency_ms: u64,
    pub attempt_number: nat,
}

impl View for RoutingAttempt {
    type V = RoutingAttemptView;

    open spec fn view(&self) -> RoutingAttemptView {
        RoutingAttemptView {
            psp_id: self.psp_id@,
            psp_name: self.psp_name@,
            approved: self.approved,
            decline_reason: self.decline_reason,
            latency_ms: self.latency_ms,
            attempt_number: self.attempt_number as nat,
        }
    }
}

impl RoutingAttemptView {
    /// True when the attempt met a provider that was down.
    pub open spec fn is_cascade(self) -> bool {
        self.decline_reason == Some(DeclineReason::PspUnavailable)
    }
}

impl DeepView for RoutingAttempt {
    type V = RoutingAttemptView;

    open spec fn deep_view(&self) -> RoutingAttemptView {
        self@
    }
}

impl Clone for RoutingAttempt {
    fn clone(&self) -> (copy: Self)
        ensures
            copy == *self,
    {
        RoutingAttempt {
            psp_id: self.psp_id.clone(),
            psp_name: self.psp_name.clone(),
            approved: self.approved,
            decline_reason: self.decline_reason,
            latency_ms: self.latency_ms,
            attempt_number: self.attempt_number,
        }
    }
}

/// The outcome of routing one transaction, with every attempt made.
#[derive(Debug)]
pub struct RoutingResult {
    /// Identifier of the transaction that was routed.
    pub transaction_id: String,
    /// Whether a provider approved the transaction in the end.
    pub approved: bool,
    /// Name of the provider that approved; absent when none did.
    pub final_psp: Option<String>,
    /// Every attempt, in the order the providers were asked.
    pub attempts: Vec<RoutingAttempt>,
    /// Number of attempts that count toward the retry limit.
    pub total_attempts: usize,
    /// Sum of the latencies of all attempts, in milliseconds.
    pub total_latency_ms: u64,
}

/// The mathematical value of a [`RoutingResult`].
pub ghost struct RoutingResultView {
    pub transaction_id: Seq<char>,
    pub approved: bool,
    pub final_psp: Option<Seq<char>>,
    pub attempts: Seq<RoutingAttemptView>,
    pub total_attempts: nat,
    pub total_latency_ms: nat,
}

impl View for RoutingResult {
    type V = RoutingResultView;

    open spec fn view(&self) -> RoutingResultView {
        RoutingResultView {
            transaction_id: self.transaction_id@,
            approved: self.approved,
            final_psp: match self.final_psp {
                Some(name) => Some(name@),
                None => None,
            },
            attempts: self.attempts.deep_view(),
            total_attempts: self.total_attempts as nat,
            total_latency_ms: self.total_latency_ms as nat,
        }
    }
}

impl DeepView for RoutingResult {
    type V = RoutingResultView;

    open spec fn deep_view(&self) -> RoutingResultView {
        self@
    }
}

/// Sum of the latencies of a list of attempts.
pub open spec fn latency_sum(attempts: Seq<RoutingAttemptView>) -> nat
    decreases attempts.len(),
{
    if attempts.len() == 0 {
        0
    } else {
        latency_sum(attempts.drop_last()) + attempts.last().latency_ms as nat
    }
}

/// Number of attempts in a list that did not meet a provider that was down.
pub open spec fn counted_attempts(attempts: Seq<RoutingAttemptView>) -> nat
    decreases attempts.len(),
{
    if attempts.len() == 0 {
        0
    } else {
        counted_attempts(attempts.drop_last()) + if attempts.last().is_cascade() {
            0nat
        } else {
            1nat
        }
    }
}

/// What a caller sends to have a payment authorized.
#[derive(Debug)]
pub struct AuthorizationRequest {
    /// Amount in hundredths of the currency unit; not yet known to be
    /// positive.
    pub amount_cents: i64,
    /// The amount in the 64 bits in which it arrived. Only the transaction
    /// identifier depends on it.
    pub amount_bits: u64,
    /// Currency code as sent.
    pub currency: String,
    /// Country name as sent.
    pub country: String,
    /// First six digits of the card.
    pub card_bin: String,
    /// Last four digits of the card.
    pub card_last4: String,
    /// Identifier of the paying customer.
    pub customer_id: String,
    /// Strategy asked for, if any.
    pub routing_strategy: Option<RoutingStrategy>,
}

/// The mathematical value of an [`AuthorizationRequest`].
pub ghost struct AuthorizationRequestView {
    pub amount_cents: i64,
    pub amount_bits: u64,
    pub currency: Seq<char>,
    pub country: Seq<char>,
    pub card_bin: Seq<char>,
    pub card_last4: Seq<char>,
    pub customer_id: Seq<char>,
    pub routing_strategy: Option<RoutingStrategy>,
}

impl View for AuthorizationRequest {
    type V = AuthorizationRequestView;

    open spec fn view(&self) -> AuthorizationRequestView {
        AuthorizationRequestView {
            amount_cents: self.amount_cents,
            amount_bits: self.amount_bits,
            currency: self.currency@,
            country: self.country@,
            card_bin: self.card_bin@,
            card_last4: self.card_last4@,
            customer_id: self.customer_id@,
            routing_strategy: self.routing_strategy,
        }
    }
}

impl Clone for AuthorizationRequest {
    fn clone(&self) -> (copy: Self)
        ensures
            copy == *self,
    {
        AuthorizationRequest {
            amount_cents: self.amount_cents,
            amount_bits: self.amount_bits,
            currency: self.currency.clone(),
            country: self.country.clone(),
            card_bin: self.card_bin.clone(),
            card_last4: self.card_last4.clone(),
            customer_id: self.customer_id.clone(),
            routing_strategy: self.routing_strategy,
        }
    }
}

} // verus!
