//! The shapes of a performance report.
//!
//! Rates and averages are held in hundredths: a rate of `7512` is 75.12
//! percent, an average latency of `26250` is 262.5 milliseconds.

use crate::models::routing::RoutingStrategy;
use crate::models::transaction::Country;
use vstd::prelude::*;

verus! {

/// The totals of one scenario over a batch.
#[derive(Clone, Copy, Debug, PartialEq, Eq, Structural)]
pub struct ScenarioResult {
    /// Number of transactions approved.
    pub approved: usize,
    /// Number of transactions declined.
    pub declined: usize,
    /// Share of transactions approved, in hundredths of a percent.
    pub authorization_rate_hundredths: u64,
    /// Counted attempts per transaction, in hundredths.
    pub avg_attempts_hundredths: u128,
    /// Latency per transaction, in hundredths of a millisecond.
    pub avg_latency_hundredths: u128,
}

/// What retry gains over no retry.
#[derive(Clone, Copy, Debug, PartialEq, Eq, Structural)]
pub struct ImprovementMetrics {
    /// Authorization rate with retry less the rate without, in hundredths
    /// of a percentage point.
    pub rate_lift_hundredths: i64,
    /// Approvals with retry beyond those without; never negative.
    pub additional_approvals: usize,
    /// The additional approvals times the mean amount, in cents.
    pub estimated_revenue_recovered_cents: u128,
}

/// The authorization rates of one country.
#[derive(Clone, Copy, Debug, PartialEq, Eq, Structural)]
pub struct CountryMetrics {
    /// Rate without retry, in hundredths of a percent.
    pub no_retry_rate_hundredths: u64,
    /// Rate with retry, in hundredths of a percent.
    pub smart_retry_rate_hundredths: u64,
    /// The second less the first, in hundredths of a percentage point.
    pub improvement_hundredths: i64,
    /// Number of transactions of the country.
    pub total_transactions: usize,
}

/// The record of one provider over all attempts of a batch.
#[derive(Clone, Copy, Debug, PartialEq, Eq, Structural)]
pub struct PspMetrics {
    /// Number of attempts made at the provider.
    pub total_attempts: usize,
    /// Number of attempts it approved.
    pub approvals: usize,
    /// Number of attempts it declined; attempts that found it down are
    /// neither approvals nor declines.
    pub declines: usize,
    /// Approvals per attempt, in hundredths of a percent.
    pub approval_rate_hundredths: u64,
    /// Latency per attempt, in hundredths of a millisecond.
    pub avg_latency_hundredths: u128,
}

/// The metrics of one country within a report.
#[derive(Clone, Copy, Debug, PartialEq, Eq, Structural)]
pub struct CountryBreakdown {
    pub country: Country,
    pub metrics: CountryMetrics,
}

/// The metrics of one provider within a report.
#[derive(Debug)]
pub struct PspBreakdown {
    pub psp_name: String,
    pub metrics: PspMetrics,
}

/// The mathematical value of a [`PspBreakdown`].
pub ghost struct PspBreakdownView {
    pub psp_name: Seq<char>,
    pub metrics: PspMetrics,
}

impl View for PspBreakdown {
    type V = PspBreakdownView;

    open spec fn view(&self) -> PspBreakdownView {
        PspBreakdownView { psp_name: self.psp_name@, metrics: self.metrics }
    }
}

impl DeepView for PspBreakdown {
    type V = PspBreakdownView;

    open spec fn deep_view(&self) -> PspBreakdownView {
        self@
    }
}

impl Clone for PspBreakdown {
    fn clone(&self) -> (copy: Self)
        ensures
            copy == *self,
    {
        PspBreakdown { psp_name: self.psp_name.clone(), metrics: self.metrics }
    }
}

/// A report that sets routing with retry against routing without.
#[derive(Debug)]
pub struct PerformanceReport {
    /// Number of transactions in the batch.
    pub total_transactions: usize,
    /// The batch without retry.
    pub no_retry: ScenarioResult,
    /// The batch with retry.
    pub smart_retry: ScenarioResult,
    /// What retry gains.
    pub improvement: ImprovementMetrics,
    /// The countries that have transactions in the batch, in the order
    /// Brazil, Mexico, Colombia.
    pub by_country: Vec<CountryBreakdown>,
    /// The providers that were tried with retry, each once, in the order in
    /// which they were first tried.
    pub by_psp: Vec<PspBreakdown>,
}

/// The mathematical value of a [`PerformanceReport`].
pub ghost struct PerformanceReportView {
    pub total_transactions: nat,
    pub no_retry: ScenarioResult,
    pub smart_retry: ScenarioResult,
    pub improvement: ImprovementMetrics,
    pub by_country: Seq<CountryBreakdown>,
    pub by_psp: Seq<PspBreakdownView>,
}

impl View for PerformanceReport {
    type V = PerformanceReportView;

    open spec fn view(&self) -> PerformanceReportView {
        PerformanceReportView {
            total_transactions: self.total_transactions as nat,
            no_retry: self.no_retry,
            smart_retry: self.smart_retry,
            improvement: self.improvement,
            by_country: self.by_country@,
            by_psp: self.by_psp.deep_view(),
        }
    }
}

/// What a report is asked for: how many transactions, and under which
/// strategy. What is absent takes its default.
#[derive(Clone, Copy, Debug, PartialEq, Eq, Structural)]
pub struct ReportRequest {
    /// Number of transactions to generate and route.
    pub transaction_count: Option<usize>,
    /// Strategy of the routing with retry.
    pub routing_strategy: Option<RoutingStrategy>,
}

} // verus!
