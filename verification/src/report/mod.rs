//! The performance report: a batch routed without and with retry, and the
//! two outcomes set against each other.

pub mod providers;
pub mod ratio;

use crate::engine::{no_retry_model, route_model, RoutingEngine};
use crate::models::report::{
    CountryBreakdown, CountryMetrics, ImprovementMetrics, PerformanceReport,
    PerformanceReportView, ScenarioResult,
};
use crate::models::routing::{RoutingResult, RoutingResultView, RoutingStrategy};
use crate::report::providers::{attempt_stream, build_psp_breakdown, is_psp_breakdown};
use crate::models::transaction::{Country, Transaction, TransactionView};
use crate::text::same_text;
use crate::report::ratio::{lemma_rounded_share_bounded, mean_times, rounded_ratio};
use vstd::prelude::*;

verus! {

/// Number of approved results.
pub open spec fn approved_count(results: Seq<RoutingResultView>) -> nat
    decreases results.len(),
{
    if results.len() == 0 {
        0
    } else {
        approved_count(results.drop_last()) + if results.last().approved {
            1nat
        } else {
            0nat
        }
    }
}

/// Sum of the counted attempts of the results.
pub open spec fn attempt_total(results: Seq<RoutingResultView>) -> nat
    decreases results.len(),
{
    if results.len() == 0 {
        0
    } else {
        attempt_total(results.drop_last()) + results.last().total_attempts
    }
}

/// Sum of the total latencies of the results.
pub open spec fn latency_total(results: Seq<RoutingResultView>) -> nat
    decreases results.len(),
{
    if results.len() == 0 {
        0
    } else {
        latency_total(results.drop_last()) + results.last().total_latency_ms
    }
}

/// A share in hundredths of a percent: `part / whole * 100`, rounded to two
/// decimals; zero of an empty whole.
pub open spec fn rate_hundredths(part: nat, whole: nat) -> nat {
    rounded_ratio(part * 10000, whole)
}

/// True when the metrics are those of the results: approvals and declines
/// add up to their number, the rate is approvals per result, and the
/// averages are attempts and latency per result. Of no results, all is
/// zero.
pub open spec fn is_scenario_of(metrics: ScenarioResult, results: Seq<RoutingResultView>) -> bool {
    &&& metrics.approved == approved_count(results)
    &&& metrics.approved + metrics.declined == results.len()
    &&& metrics.authorization_rate_hundredths == rate_hundredths(
        approved_count(results),
        results.len(),
    )
    &&& metrics.authorization_rate_hundredths <= 10000
    &&& metrics.avg_attempts_hundredths == rounded_ratio(
        attempt_total(results) * 100,
        results.len(),
    )
    &&& metrics.avg_latency_hundredths == rounded_ratio(
        latency_total(results) * 100,
        results.len(),
    )
}

/// No more results are approved than there are.
pub proof fn lemma_approved_count_bounded(results: Seq<RoutingResultView>)
    ensures
        approved_count(results) <= results.len(),
    decreases results.len(),
{
    if results.len() > 0 {
        lemma_approved_count_bounded(results.drop_last());
    }
}

/// A share of a whole, in hundredths of a percent, rounded.
pub fn share_hundredths(part: usize, whole: usize) -> (rate: u64)
    requires
        part <= whole,
    ensures
        rate == rate_hundredths(part as nat, whole as nat),
        rate <= 10000,
{
    proof {
        lemma_rounded_share_bounded(part as nat, whole as nat, 10000);
        assert(part <= whole * u64::MAX) by (nonlinear_arith)
            requires
                part <= whole,
        ;
    }
    let rate = mean_times(part as u128, whole, 10000);
    rate as u64
}

/// The totals of a list of routing results.
pub fn calculate_metrics(results: &Vec<RoutingResult>) -> (metrics: ScenarioResult)
    ensures
        is_scenario_of(metrics, results.deep_view()),
{
    let ghost all = results.deep_view();
    let total = results.len();
    let mut approved: usize = 0;
    let mut attempts: u128 = 0;
    let mut latency: u128 = 0;
    let mut i: usize = 0;
    assert(all.take(0) =~= Seq::<RoutingResultView>::empty());
    while i < total
        invariant
            i <= total == results.len(),
            all == results.deep_view(),
            approved == approved_count(all.take(i as int)),
            approved <= i,
            attempts == attempt_total(all.take(i as int)),
            attempts <= i * u64::MAX,
            latency == latency_total(all.take(i as int)),
            latency <= i * u64::MAX,
        decreases total - i,
    {
        proof {
            let upto = all.take(i + 1);
            assert(upto.drop_last() =~= all.take(i as int));
            assert(upto.last() == results[i as int]@);
            assert((i + 1) * u64::MAX == i * u64::MAX + u64::MAX) by (nonlinear_arith);
            assert(i * u64::MAX + u64::MAX <= u128::MAX) by (nonlinear_arith)
                requires
                    i < u64::MAX,
            ;
        }
        if results[i].approved {
            approved = approved + 1;
        }
        attempts = attempts + results[i].total_attempts as u128;
        latency = latency + results[i].total_latency_ms as u128;
        i = i + 1;
    }
    assert(all.take(total as int) =~= all);
    let rate = share_hundredths(approved, total);
    proof {
        assert(attempts as nat * 100 == attempt_total(all) * 100);
    }
    ScenarioResult {
        approved,
        declined: total - approved,
        authorization_rate_hundredths: rate,
        avg_attempts_hundredths: mean_times(attempts, total, 100),
        avg_latency_hundredths: mean_times(latency, total, 100),
    }
}

/// Whether the transaction with the given identifier was approved: the
/// word of the last result that carries the identifier, and no where none
/// does.
pub open spec fn approved_by_id(results: Seq<RoutingResultView>, id: Seq<char>) -> bool
    decreases results.len(),
{
    if results.len() == 0 {
        false
    } else if results.last().transaction_id == id {
        results.last().approved
    } else {
        approved_by_id(results.drop_last(), id)
    }
}

/// Number of transactions of a country.
pub open spec fn country_total(transactions: Seq<TransactionView>, country: Country) -> nat
    decreases transactions.len(),
{
    if transactions.len() == 0 {
        0
    } else {
        country_total(transactions.drop_last(), country) + if transactions.last().country
            == country {
            1nat
        } else {
            0nat
        }
    }
}

/// Number of transactions of a country that the results approve.
pub open spec fn country_approved(
    transactions: Seq<TransactionView>,
    results: Seq<RoutingResultView>,
    country: Country,
) -> nat
    decreases transactions.len(),
{
    if transactions.len() == 0 {
        0
    } else {
        country_approved(transactions.drop_last(), results, country) + if transactions.last().country
            == country && approved_by_id(results, transactions.last().id) {
            1nat
        } else {
            0nat
        }
    }
}

/// True when the metrics are those of the country: its number of
/// transactions, the share of them approved on either side, and the
/// difference of the two shares.
pub open spec fn is_country_metrics(
    metrics: CountryMetrics,
    transactions: Seq<TransactionView>,
    no_retry: Seq<RoutingResultView>,
    smart_retry: Seq<RoutingResultView>,
    country: Country,
) -> bool {
    &&& metrics.total_transactions == country_total(transactions, country)
    &&& metrics.no_retry_rate_hundredths == rate_hundredths(
        country_approved(transactions, no_retry, country),
        country_total(transactions, country),
    )
    &&& metrics.smart_retry_rate_hundredths == rate_hundredths(
        country_approved(transactions, smart_retry, country),
        country_total(transactions, country),
    )
    &&& metrics.no_retry_rate_hundredths <= 10000
    &&& metrics.smart_retry_rate_hundredths <= 10000
    &&& metrics.improvement_hundredths == metrics.smart_retry_rate_hundredths
        - metrics.no_retry_rate_hundredths
}

/// True when the entries are the breakdown by country: one entry for each
/// country that has a transaction and none for any other, in the order
/// Brazil, Mexico, Colombia, each with the metrics of its country.
pub open spec fn is_country_breakdown(
    entries: Seq<CountryBreakdown>,
    transactions: Seq<TransactionView>,
    no_retry: Seq<RoutingResultView>,
    smart_retry: Seq<RoutingResultView>,
) -> bool {
    &&& forall|i: int, j: int|
        0 <= i < j < entries.len() ==> (#[trigger] entries[i]).country.spec_index() < (
        #[trigger] entries[j]).country.spec_index()
    &&& forall|country: Country|
        country_total(transactions, country) > 0 <==> exists|i: int|
            0 <= i < entries.len() && (#[trigger] entries[i]).country == country
    &&& forall|i: int|
        0 <= i < entries.len() ==> is_country_metrics(
            (#[trigger] entries[i]).metrics,
            transactions,
            no_retry,
            smart_retry,
            entries[i].country,
        )
}

/// No more transactions of a country are approved than it has, and it has
/// no more than there are.
pub proof fn lemma_country_counts_bounded(
    transactions: Seq<TransactionView>,
    results: Seq<RoutingResultView>,
    country: Country,
)
    ensures
        country_approved(transactions, results, country) <= country_total(transactions, country)
            <= transactions.len(),
    decreases transactions.len(),
{
    if transactions.len() > 0 {
        lemma_country_counts_bounded(transactions.drop_last(), results, country);
    }
}

/// Looks a transaction up in the results by its identifier.
pub fn is_approved_by_id(results: &Vec<RoutingResult>, id: &str) -> (approved: bool)
    ensures
        approved == approved_by_id(results.deep_view(), id@),
{
    let ghost all = results.deep_view();
    let mut at: usize = results.len();
    assert(all.take(at as int) =~= all);
    while at > 0
        invariant
            at <= results.len(),
            all == results.deep_view(),
            approved_by_id(all, id@) == approved_by_id(all.take(at as int), id@),
        decreases at,
    {
        proof {
            let upto = all.take(at as int);
            assert(upto.last() == results[at - 1]@);
            assert(upto.drop_last() =~= all.take(at - 1));
        }
        at = at - 1;
        if same_text(results[at].transaction_id.as_str(), id) {
            return results[at].approved;
        }
    }
    false
}

/// The tallies of one country while the transactions are walked.
struct CountryTally {
    total: usize,
    no_retry_approved: usize,
    smart_retry_approved: usize,
}

spec fn tally_matches(
    tally: CountryTally,
    transactions: Seq<TransactionView>,
    no_retry: Seq<RoutingResultView>,
    smart_retry: Seq<RoutingResultView>,
    country: Country,
) -> bool {
    &&& tally.total == country_total(transactions, country)
    &&& tally.no_retry_approved == country_approved(transactions, no_retry, country)
    &&& tally.smart_retry_approved == country_approved(transactions, smart_retry, country)
}

fn count_in(tally: &mut CountryTally, no_retry_approved: bool, smart_retry_approved: bool)
    requires
        old(tally).total < usize::MAX,
        old(tally).no_retry_approved <= old(tally).total,
        old(tally).smart_retry_approved <= old(tally).total,
    ensures
        final(tally).total == old(tally).total + 1,
        final(tally).no_retry_approved == old(tally).no_retry_approved + if no_retry_approved {
            1int
        } else {
            0int
        },
        final(tally).smart_retry_approved == old(tally).smart_retry_approved
            + if smart_retry_approved {
            1int
        } else {
            0int
        },
{
    tally.total = tally.total + 1;
    if no_retry_approved {
        tally.no_retry_approved = tally.no_retry_approved + 1;
    }
    if smart_retry_approved {
        tally.smart_retry_approved = tally.smart_retry_approved + 1;
    }
}

fn metrics_of_tally(
    tally: &CountryTally,
    Ghost(transactions): Ghost<Seq<TransactionView>>,
    Ghost(no_retry): Ghost<Seq<RoutingResultView>>,
    Ghost(smart_retry): Ghost<Seq<RoutingResultView>>,
    country: Country,
) -> (metrics: CountryMetrics)
    requires
        tally_matches(*tally, transactions, no_retry, smart_retry, country),
    ensures
        is_country_metrics(metrics, transactions, no_retry, smart_retry, country),
{
    proof {
        lemma_country_counts_bounded(transactions, no_retry, country);
        lemma_country_counts_bounded(transactions, smart_retry, country);
    }
    let no_retry_rate = share_hundredths(tally.no_retry_approved, tally.total);
    let smart_retry_rate = share_hundredths(tally.smart_retry_approved, tally.total);
    CountryMetrics {
        no_retry_rate_hundredths: no_retry_rate,
        smart_retry_rate_hundredths: smart_retry_rate,
        improvement_hundredths: smart_retry_rate as i64 - no_retry_rate as i64,
        total_transactions: tally.total,
    }
}

/// The authorization rates of each country that has transactions. Each
/// transaction is looked up in either list of results by its identifier.
pub fn build_country_breakdown(
    transactions: &Vec<Transaction>,
    no_retry_results: &Vec<RoutingResult>,
    smart_retry_results: &Vec<RoutingResult>,
) -> (entries: Vec<CountryBreakdown>)
    ensures
        is_country_breakdown(
            entries@,
            transactions.deep_view(),
            no_retry_results.deep_view(),
            smart_retry_results.deep_view(),
        ),
{
    let ghost all = transactions.deep_view();
    let ghost no_retry = no_retry_results.deep_view();
    let ghost smart_retry = smart_retry_results.deep_view();
    let mut brazil = CountryTally { total: 0, no_retry_approved: 0, smart_retry_approved: 0 };
    let mut mexico = CountryTally { total: 0, no_retry_approved: 0, smart_retry_approved: 0 };
    let mut colombia = CountryTally { total: 0, no_retry_approved: 0, smart_retry_approved: 0 };
    let mut i: usize = 0;
    assert(all.take(0) =~= Seq::<TransactionView>::empty());
    while i < transactions.len()
        invariant
            i <= transactions.len(),
            all == transactions.deep_view(),
            no_retry == no_retry_results.deep_view(),
            smart_retry == smart_retry_results.deep_view(),
            tally_matches(brazil, all.take(i as int), no_retry, smart_retry, Country::Brazil),
            tally_matches(mexico, all.take(i as int), no_retry, smart_retry, Country::Mexico),
            tally_matches(colombia, all.take(i as int), no_retry, smart_retry, Country::Colombia),
        decreases transactions.len() - i,
    {
        let transaction = &transactions[i];
        let no_retry_approved = is_approved_by_id(no_retry_results, transaction.id.as_str());
        let smart_retry_approved = is_approved_by_id(
            smart_retry_results,
            transaction.id.as_str(),
        );
        proof {
            let before = all.take(i as int);
            let upto = all.take(i + 1);
            assert(upto.drop_last() =~= before);
            assert(upto.last() == transaction@);
            lemma_country_counts_bounded(before, no_retry, Country::Brazil);
            lemma_country_counts_bounded(before, smart_retry, Country::Brazil);
            lemma_country_counts_bounded(before, no_retry, Country::Mexico);
            lemma_country_counts_bounded(before, smart_retry, Country::Mexico);
            lemma_country_counts_bounded(before, no_retry, Country::Colombia);
            lemma_country_counts_bounded(before, smart_retry, Country::Colombia);
        }
        match transaction.country {
            Country::Brazil => count_in(&mut brazil, no_retry_approved, smart_retry_approved),
            Country::Mexico => count_in(&mut mexico, no_retry_approved, smart_retry_approved),
            Country::Colombia => count_in(&mut colombia, no_retry_approved, smart_retry_approved),
        }
        i = i + 1;
    }
    assert(all.take(transactions.len() as int) =~= all);
    let mut entries: Vec<CountryBreakdown> = Vec::new();
    if brazil.total > 0 {
        let metrics = metrics_of_tally(
            &brazil,
            Ghost(all),
            Ghost(no_retry),
            Ghost(smart_retry),
            Country::Brazil,
        );
        entries.push(CountryBreakdown { country: Country::Brazil, metrics });
    }
    if mexico.total > 0 {
        let metrics = metrics_of_tally(
            &mexico,
            Ghost(all),
            Ghost(no_retry),
            Ghost(smart_retry),
            Country::Mexico,
        );
        entries.push(CountryBreakdown { country: Country::Mexico, metrics });
    }
    if colombia.total > 0 {
        let metrics = metrics_of_tally(
            &colombia,
            Ghost(all),
            Ghost(no_retry),
            Ghost(smart_retry),
            Country::Colombia,
        );
        entries.push(CountryBreakdown { country: Country::Colombia, metrics });
    }
    proof {
        assert forall|country: Country|
            country_total(all, country) > 0 <==> exists|i: int|
                0 <= i < entries.len() && (#[trigger] entries[i]).country == country by {
            match country {
                Country::Brazil => {
                    if brazil.total > 0 {
                        assert(entries[0].country == Country::Brazil);
                    }
                },
                Country::Mexico => {
                    if mexico.total > 0 {
                        if brazil.total > 0 {
                            assert(entries[1].country == Country::Mexico);
                        } else {
                            assert(entries[0].country == Country::Mexico);
                        }
                    }
                },
                Country::Colombia => {
                    if colombia.total > 0 {
                        assert(entries[entries.len() - 1].country == Country::Colombia);
                    }
                },
            }
        }
    }
    entries
}

/// The results of the transactions without retry, one for each, in order.
pub open spec fn no_retry_results(transactions: Seq<TransactionView>) -> Seq<RoutingResultView> {
    Seq::new(transactions.len(), |i: int| no_retry_model(transactions[i]))
}

/// The results of the transactions with retry, one for each, in order.
pub open spec fn smart_retry_results(
    transactions: Seq<TransactionView>,
    strategy: RoutingStrategy,
) -> Seq<RoutingResultView> {
    Seq::new(transactions.len(), |i: int| route_model(transactions[i], strategy))
}

/// Sum of the amounts of the transactions, in cents.
pub open spec fn amount_total(transactions: Seq<TransactionView>) -> nat
    decreases transactions.len(),
{
    if transactions.len() == 0 {
        0
    } else {
        amount_total(transactions.drop_last()) + transactions.last().amount_cents as nat
    }
}

/// True when the metrics say what retry gains: the difference of the two
/// rates, the approvals gained and never less than none, and the approvals
/// gained times the mean amount of the batch.
pub open spec fn is_improvement_of(
    metrics: ImprovementMetrics,
    no_retry: ScenarioResult,
    smart_retry: ScenarioResult,
    transactions: Seq<TransactionView>,
) -> bool {
    &&& metrics.rate_lift_hundredths == smart_retry.authorization_rate_hundredths
        - no_retry.authorization_rate_hundredths
    &&& metrics.additional_approvals == if smart_retry.approved > no_retry.approved {
        smart_retry.approved - no_retry.approved
    } else {
        0
    }
    &&& metrics.estimated_revenue_recovered_cents == rounded_ratio(
        amount_total(transactions) * metrics.additional_approvals as nat,
        transactions.len(),
    )
}

/// True when the report is that of the transactions under the strategy.
pub open spec fn is_report_of(
    report: PerformanceReportView,
    transactions: Seq<TransactionView>,
    strategy: RoutingStrategy,
) -> bool {
    &&& report.total_transactions == transactions.len()
    &&& is_scenario_of(report.no_retry, no_retry_results(transactions))
    &&& is_scenario_of(report.smart_retry, smart_retry_results(transactions, strategy))
    &&& is_improvement_of(report.improvement, report.no_retry, report.smart_retry, transactions)
    &&& is_country_breakdown(
        report.by_country,
        transactions,
        no_retry_results(transactions),
        smart_retry_results(transactions, strategy),
    )
    &&& is_psp_breakdown(
        report.by_psp,
        attempt_stream(smart_retry_results(transactions, strategy)),
    )
}

/// Routes every transaction without retry.
pub fn run_no_retry(transactions: &Vec<Transaction>, engine: &RoutingEngine) -> (results: Vec<
    RoutingResult,
>)
    ensures
        results.deep_view() == no_retry_results(transactions.deep_view()),
{
    let mut results: Vec<RoutingResult> = Vec::new();
    let mut i: usize = 0;
    while i < transactions.len()
        invariant
            i <= transactions.len(),
            results.len() == i,
            forall|k: int|
                0 <= k < i ==> (#[trigger] results[k])@ == no_retry_model(transactions[k]@),
        decreases transactions.len() - i,
    {
        results.push(engine.route_no_retry(&transactions[i]));
        i = i + 1;
    }
    assert(results.deep_view() =~= no_retry_results(transactions.deep_view()));
    results
}

/// Routes every transaction with retry under the strategy.
pub fn run_smart_retry(
    transactions: &Vec<Transaction>,
    engine: &RoutingEngine,
    strategy: &RoutingStrategy,
) -> (results: Vec<RoutingResult>)
    ensures
        results.deep_view() == smart_retry_results(transactions.deep_view(), *strategy),
        forall|k: int| 0 <= k < results.len() ==> (#[trigger] results[k])@.attempts.len() <= 3,
{
    let mut results: Vec<RoutingResult> = Vec::new();
    let mut i: usize = 0;
    while i < transactions.len()
        invariant
            i <= transactions.len(),
            results.len() == i,
            forall|k: int|
                0 <= k < i ==> {
                    &&& (#[trigger] results[k])@ == route_model(transactions[k]@, *strategy)
                    &&& results[k]@.attempts.len() <= 3
                },
        decreases transactions.len() - i,
    {
        results.push(engine.route(&transactions[i], strategy));
        i = i + 1;
    }
    assert(results.deep_view() =~= smart_retry_results(transactions.deep_view(), *strategy));
    results
}

/// Results with at most three attempts each have at most three times as
/// many attempts together.
proof fn lemma_stream_of_short_results(results: Seq<RoutingResultView>)
    requires
        forall|k: int| 0 <= k < results.len() ==> (#[trigger] results[k]).attempts.len() <= 3,
    ensures
        attempt_stream(results).len() <= 3 * results.len(),
    decreases results.len(),
{
    if results.len() > 0 {
        let rest = results.drop_last();
        assert forall|k: int| 0 <= k < rest.len() implies (#[trigger] rest[k]).attempts.len()
            <= 3 by {
            assert(rest[k] == results[k]);
        }
        lemma_stream_of_short_results(rest);
        assert(results.last() == results[results.len() - 1]);
    }
}

/// Sums the amounts of the transactions, in cents.
fn sum_amounts(transactions: &Vec<Transaction>) -> (total: u128)
    ensures
        total == amount_total(transactions.deep_view()),
        total <= transactions.len() * u64::MAX,
{
    let ghost all = transactions.deep_view();
    let mut total: u128 = 0;
    let mut i: usize = 0;
    assert(all.take(0) =~= Seq::<TransactionView>::empty());
    while i < transactions.len()
        invariant
            i <= transactions.len(),
            all == transactions.deep_view(),
            total == amount_total(all.take(i as int)),
            total <= i * u64::MAX,
        decreases transactions.len() - i,
    {
        proof {
            let upto = all.take(i + 1);
            assert(upto.drop_last() =~= all.take(i as int));
            assert(upto.last() == transactions[i as int]@);
            assert((i + 1) * u64::MAX == i * u64::MAX + u64::MAX) by (nonlinear_arith);
            assert(i * u64::MAX + u64::MAX <= u128::MAX) by (nonlinear_arith)
                requires
                    i < u64::MAX,
            ;
        }
        total = total + transactions[i].amount_cents as u128;
        i = i + 1;
    }
    assert(all.take(transactions.len() as int) =~= all);
    total
}

/// What retry gains over no retry on a batch.
pub fn measure_improvement(
    no_retry: &ScenarioResult,
    smart_retry: &ScenarioResult,
    transactions: &Vec<Transaction>,
) -> (metrics: ImprovementMetrics)
    requires
        no_retry.authorization_rate_hundredths <= 10000,
        smart_retry.authorization_rate_hundredths <= 10000,
    ensures
        is_improvement_of(metrics, *no_retry, *smart_retry, transactions.deep_view()),
{
    let additional_approvals = if smart_retry.approved > no_retry.approved {
        smart_retry.approved - no_retry.approved
    } else {
        0
    };
    let total = sum_amounts(transactions);
    ImprovementMetrics {
        rate_lift_hundredths: smart_retry.authorization_rate_hundredths as i64
            - no_retry.authorization_rate_hundredths as i64,
        additional_approvals,
        estimated_revenue_recovered_cents: mean_times(
            total,
            transactions.len(),
            additional_approvals as u64,
        ),
    }
}

/// Routes every transaction without retry and with retry under the
/// strategy, and reports both outcomes: overall, by country and by
/// provider. Three attempts for each transaction must fit the counters.
pub fn generate_report(
    transactions: &Vec<Transaction>,
    engine: &RoutingEngine,
    strategy: &RoutingStrategy,
) -> (report: PerformanceReport)
    requires
        3 * transactions.len() <= usize::MAX,
    ensures
        is_report_of(report@, transactions.deep_view(), *strategy),
{
    let no_retry_results = run_no_retry(transactions, engine);
    let smart_retry_results = run_smart_retry(transactions, engine, strategy);
    proof {
        let smart = smart_retry_results.deep_view();
        assert forall|k: int| 0 <= k < smart.len() implies (#[trigger] smart[k]).attempts.len()
            <= 3 by {
            assert(smart[k] == smart_retry_results[k]@);
        }
        lemma_stream_of_short_results(smart);
    }
    let no_retry = calculate_metrics(&no_retry_results);
    let smart_retry = calculate_metrics(&smart_retry_results);
    let improvement = measure_improvement(&no_retry, &smart_retry, transactions);
    let by_country = build_country_breakdown(
        transactions,
        &no_retry_results,
        &smart_retry_results,
    );
    let by_psp = build_psp_breakdown(&smart_retry_results);
    PerformanceReport {
        total_transactions: transactions.len(),
        no_retry,
        smart_retry,
        improvement,
        by_country,
        by_psp,
    }
}

} // verus!
