//! Decline reasons and their three classes, provider configuration, and
//! the answer a provider gives.

use crate::models::transaction::Country;
use vstd::prelude::*;

verus! {

/// Why a provider did not approve a transaction.
#[derive(Clone, Copy, Debug, PartialEq, Eq, Structural, Hash)]
pub enum DeclineReason {
    /// The customer has insufficient funds.
    InsufficientFunds,
    /// The card has expired.
    CardExpired,
    /// The card number is invalid.
    InvalidCard,
    /// The card has been reported stolen.
    StolenCard,
    /// The issuing bank is temporarily unreachable.
    IssuerUnavailable,
    /// The provider's fraud model flagged the transaction.
    SuspectedFraud,
    /// The issuer answered "do not honor".
    DoNotHonor,
    /// The provider's processor declined the transaction.
    ProcessorDeclined,
    /// The provider itself could not be reached.
    PspUnavailable,
}

impl DeclineReason {
    /// Card-intrinsic, permanent reasons: no provider can approve the card.
    pub open spec fn spec_is_hard(self) -> bool {
        self is InsufficientFunds || self is CardExpired || self is InvalidCard
            || self is StolenCard
    }

    /// Provider-intrinsic, transient reasons: another provider may approve.
    pub open spec fn spec_is_soft(self) -> bool {
        self is IssuerUnavailable || self is SuspectedFraud || self is DoNotHonor
            || self is ProcessorDeclined
    }

    /// The infrastructure reason: the provider was down.
    pub open spec fn spec_is_unavailable(self) -> bool {
        self is PspUnavailable
    }

    /// True for the four card-intrinsic reasons.
    pub fn is_hard_decline(&self) -> (b: bool)
        ensures
            b == self.spec_is_hard(),
    {
        match self {
            DeclineReason::InsufficientFunds => true,
            DeclineReason::CardExpired => true,
            DeclineReason::InvalidCard => true,
            DeclineReason::StolenCard => true,
            _ => false,
        }
    }

    /// True for the four provider-intrinsic reasons.
    pub fn is_soft_decline(&self) -> (b: bool)
        ensures
            b == self.spec_is_soft(),
    {
        match self {
            DeclineReason::IssuerUnavailable => true,
            DeclineReason::SuspectedFraud => true,
            DeclineReason::DoNotHonor => true,
            DeclineReason::ProcessorDeclined => true,
            _ => false,
        }
    }

    /// True only for the unreachable provider.
    pub fn is_psp_unavailable(&self) -> (b: bool)
        ensures
            b == self.spec_is_unavailable(),
    {
        match self {
            DeclineReason::PspUnavailable => true,
            _ => false,
        }
    }

    /// The reason in snake case, as it is written in logs and reports.
    pub fn label(&self) -> (s: &'static str)
        ensures
            s@ == self.spec_label(),
    {
        match self {
            DeclineReason::InsufficientFunds => "insufficient_funds",
            DeclineReason::CardExpired => "card_expired",
            DeclineReason::InvalidCard => "invalid_card",
            DeclineReason::StolenCard => "stolen_card",
            DeclineReason::IssuerUnavailable => "issuer_unavailable",
            DeclineReason::SuspectedFraud => "suspected_fraud",
            DeclineReason::DoNotHonor => "do_not_honor",
            DeclineReason::ProcessorDeclined => "processor_declined",
            DeclineReason::PspUnavailable => "psp_unavailable",
        }
    }

    /// The characters of [`DeclineReason::label`].
    pub open spec fn spec_label(self) -> Seq<char> {
        match self {
            DeclineReason::InsufficientFunds => "insufficient_funds"@,
            DeclineReason::CardExpired => "card_expired"@,
            DeclineReason::InvalidCard => "invalid_card"@,
            DeclineReason::StolenCard => "stolen_card"@,
            DeclineReason::IssuerUnavailable => "issuer_unavailable"@,
            DeclineReason::SuspectedFraud => "suspected_fraud"@,
            DeclineReason::DoNotHonor => "do_not_honor"@,
            DeclineReason::ProcessorDeclined => "processor_declined"@,
            DeclineReason::PspUnavailable => "psp_unavailable"@,
        }
    }
}

/// One in ten thousand: the unit of success rates and percentage fees.
pub const BASIS_POINTS: u32 = 10000;

/// Configuration of a payment service provider.
#[derive(Debug)]
pub struct PspConfig {
    /// Unique identifier of the provider, such as `psp_br_1`.
    pub id: String,
    /// Name of the provider as shown to people.
    pub name: String,
    /// Country the provider serves.
    pub country: Country,
    /// Share of transactions the provider approves, in basis points.
    pub success_rate_bps: u32,
    /// Shortest response time in milliseconds.
    pub latency_min_ms: u64,
    /// Longest response time in milliseconds.
    pub latency_max_ms: u64,
    /// Fee charged as a percentage of the amount, in basis points.
    pub fee_bps: u64,
    /// Fee charged per transaction, in cents.
    pub fee_fixed_cents: u64,
}

/// The mathematical value of a [`PspConfig`].
pub ghost struct PspConfigView {
    pub id: Seq<char>,
    pub name: Seq<char>,
    pub country: Country,
    pub success_rate_bps: u32,
    pub latency_min_ms: u64,
    pub latency_max_ms: u64,
    pub fee_bps: u64,
    pub fee_fixed_cents: u64,
}

impl View for PspConfig {
    type V = PspConfigView;

    open spec fn view(&self) -> PspConfigView {
        PspConfigView {
            id: self.id@,
            name: self.name@,
            country: self.country,
            success_rate_bps: self.success_rate_bps,
            latency_min_ms: self.latency_min_ms,
            latency_max_ms: self.latency_max_ms,
            fee_bps: self.fee_bps,
            fee_fixed_cents: self.fee_fixed_cents,
        }
    }
}

impl PspConfigView {
    /// What the data model asks of a provider: a success rate strictly
    /// between zero and one, and a latency band that is not empty.
    pub open spec fn valid(self) -> bool {
        &&& 0 < self.success_rate_bps < BASIS_POINTS
        &&& self.latency_min_ms <= self.latency_max_ms
    }

    /// The provider's whole fee as one number: the percentage in basis
    /// points plus the fixed fee in cents, both hundredths.
    pub open spec fn total_fee(self) -> nat {
        (self.fee_bps + self.fee_fixed_cents) as nat
    }
}

impl DeepView for PspConfig {
    type V = PspConfigView;

    open spec fn deep_view(&self) -> PspConfigView {
        self@
    }
}

impl Clone for PspConfig {
    fn clone(&self) -> (copy: Self)
        ensures
            copy == *self,
    {
        PspConfig {
            id: self.id.clone(),
            name: self.name.clone(),
            country: self.country,
            success_rate_bps: self.success_rate_bps,
            latency_min_ms: self.latency_min_ms,
            latency_max_ms: self.latency_max_ms,
            fee_bps: self.fee_bps,
            fee_fixed_cents: self.fee_fixed_cents,
        }
    }
}

/// What a provider answered to one attempt.
#[derive(Debug)]
pub struct PspResponse {
    /// Identifier of the provider that answered.
    pub psp_id: String,
    /// Name of the provider that answered.
    pub psp_name: String,
    /// Whether the provider approved the transaction.
    pub approved: bool,
    /// Why it did not; absent when it approved.
    pub decline_reason: Option<DeclineReason>,
    /// How long the answer took, in milliseconds.
    pub latency_ms: u64,
}

/// The mathematical value of a [`PspResponse`].
pub ghost struct PspResponseView {
    pub psp_id: Seq<char>,
    pub psp_name: Seq<char>,
    pub approved: bool,
    pub decline_reason: Option<DeclineReason>,
    pub latency_ms: u64,
}

impl View for PspResponse {
    type V = PspResponseView;

    open spec fn view(&self) -> PspResponseView {
        PspResponseView {
            psp_id: self.psp_id@,
            psp_name: self.psp_name@,
            approved: self.approved,
            decline_reason: self.decline_reason,
            latency_ms: self.latency_ms,
        }
    }
}

impl PspResponseView {
    /// A response is approved exactly when it carries no decline reason.
    pub open spec fn valid(self) -> bool {
        self.approved <==> self.decline_reason is None
    }
}

impl DeepView for PspResponse {
    type V = PspResponseView;

    open spec fn deep_view(&self) -> PspResponseView {
        self@
    }
}

impl Clone for PspResponse {
    fn clone(&self) -> (copy: Self)
        ensures
            copy == *self,
    {
        PspResponse {
            psp_id: self.psp_id.clone(),
            psp_name: self.psp_name.clone(),
            approved: self.approved,
            decline_reason: self.decline_reason,
            latency_ms: self.latency_ms,
        }
    }
}

} // verus!
