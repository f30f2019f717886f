//! The record of each provider over the attempts of a batch.

use crate::models::report::{PspBreakdown, PspBreakdownView, PspMetrics};
use crate::models::routing::{RoutingAttempt, RoutingAttemptView, RoutingResult, RoutingResultView};
use crate::report::ratio::{mean_times, rounded_ratio};
use crate::report::{rate_hundredths, share_hundredths};
use crate::text::same_text;
use vstd::prelude::*;

verus! {

/// All attempts of the results, in order.
pub open spec fn attempt_stream(results: Seq<RoutingResultView>) -> Seq<RoutingAttemptView>
    decreases results.len(),
{
    if results.len() == 0 {
        Seq::empty()
    } else {
        attempt_stream(results.drop_last()) + results.last().attempts
    }
}

/// The provider names of the attempts, each once, in the order in which
/// they first occur.
pub open spec fn names_seen(attempts: Seq<RoutingAttemptView>) -> Seq<Seq<char>>
    decreases attempts.len(),
{
    if attempts.len() == 0 {
        Seq::empty()
    } else {
        let before = names_seen(attempts.drop_last());
        if before.contains(attempts.last().psp_name) {
            before
        } else {
            before.push(attempts.last().psp_name)
        }
    }
}

/// Number of attempts made at a provider.
pub open spec fn attempts_at(attempts: Seq<RoutingAttemptView>, name: Seq<char>) -> nat
    decreases attempts.len(),
{
    if attempts.len() == 0 {
        0
    } else {
        attempts_at(attempts.drop_last(), name) + if attempts.last().psp_name == name {
            1nat
        } else {
            0nat
        }
    }
}

/// Number of attempts a provider approved.
pub open spec fn approvals_at(attempts: Seq<RoutingAttemptView>, name: Seq<char>) -> nat
    decreases attempts.len(),
{
    if attempts.len() == 0 {
        0
    } else {
        approvals_at(attempts.drop_last(), name) + if attempts.last().psp_name == name
            && attempts.last().approved {
            1nat
        } else {
            0nat
        }
    }
}

/// Number of attempts a provider declined: not approved, and not an
/// attempt that found the provider down.
pub open spec fn declines_at(attempts: Seq<RoutingAttemptView>, name: Seq<char>) -> nat
    decreases attempts.len(),
{
    if attempts.len() == 0 {
        0
    } else {
        declines_at(attempts.drop_last(), name) + if attempts.last().psp_name == name
            && !attempts.last().approved && !attempts.last().is_cascade() {
            1nat
        } else {
            0nat
        }
    }
}

/// Sum of the latencies of the attempts made at a provider.
pub open spec fn latency_at(attempts: Seq<RoutingAttemptView>, name: Seq<char>) -> nat
    decreases attempts.len(),
{
    if attempts.len() == 0 {
        0
    } else {
        latency_at(attempts.drop_last(), name) + if attempts.last().psp_name == name {
            attempts.last().latency_ms as nat
        } else {
            0nat
        }
    }
}

/// True when the metrics are those of the provider over the attempts.
pub open spec fn is_psp_metrics(
    metrics: PspMetrics,
    attempts: Seq<RoutingAttemptView>,
    name: Seq<char>,
) -> bool {
    &&& metrics.total_attempts == attempts_at(attempts, name)
    &&& metrics.approvals == approvals_at(attempts, name)
    &&& metrics.declines == declines_at(attempts, name)
    &&& metrics.approval_rate_hundredths == rate_hundredths(
        approvals_at(attempts, name),
        attempts_at(attempts, name),
    )
    &&& metrics.approval_rate_hundredths <= 10000
    &&& metrics.avg_latency_hundredths == rounded_ratio(
        latency_at(attempts, name) * 100,
        attempts_at(attempts, name),
    )
}

/// True when the entries are the breakdown by provider of the attempts:
/// one entry for each provider name that occurs, in the order of first
/// occurrence, each with the metrics of its provider.
pub open spec fn is_psp_breakdown(
    entries: Seq<PspBreakdownView>,
    attempts: Seq<RoutingAttemptView>,
) -> bool {
    &&& entries.len() == names_seen(attempts).len()
    &&& forall|i: int|
        0 <= i < entries.len() ==> {
            &&& (#[trigger] entries[i]).psp_name == names_seen(attempts)[i]
            &&& is_psp_metrics(entries[i].metrics, attempts, entries[i].psp_name)
        }
}

/// Approvals and declines of a provider are among its attempts, its
/// attempts among all, and its latencies those of so many attempts.
pub proof fn lemma_psp_counts_bounded(attempts: Seq<RoutingAttemptView>, name: Seq<char>)
    ensures
        approvals_at(attempts, name) + declines_at(attempts, name) <= attempts_at(attempts, name)
            <= attempts.len(),
        latency_at(attempts, name) <= attempts_at(attempts, name) * u64::MAX,
    decreases attempts.len(),
{
    if attempts.len() > 0 {
        lemma_psp_counts_bounded(attempts.drop_last(), name);
        assert((attempts_at(attempts.drop_last(), name) + 1) * u64::MAX == attempts_at(
            attempts.drop_last(),
            name,
        ) * u64::MAX + u64::MAX) by (nonlinear_arith);
    }
}

/// The names seen are exactly the names that occur, each once.
pub proof fn lemma_names_seen(attempts: Seq<RoutingAttemptView>)
    ensures
        names_seen(attempts).no_duplicates(),
        names_seen(attempts).len() <= attempts.len(),
        forall|name: Seq<char>|
            names_seen(attempts).contains(name) <==> attempts_at(attempts, name) > 0,
    decreases attempts.len(),
{
    if attempts.len() > 0 {
        let before = names_seen(attempts.drop_last());
        lemma_names_seen(attempts.drop_last());
        let last = attempts.last().psp_name;
        assert forall|name: Seq<char>|
            names_seen(attempts).contains(name) <==> attempts_at(attempts, name) > 0 by {
            if before.contains(last) {
            } else {
                let after = before.push(last);
                assert(after[before.len() as int] == last);
                if before.contains(name) {
                    let k = choose|k: int| 0 <= k < before.len() && before[k] == name;
                    assert(after[k] == name);
                }
                if after.contains(name) && name != last {
                    let k = choose|k: int| 0 <= k < after.len() && after[k] == name;
                    assert(before[k] == name);
                }
            }
        }
    }
}

/// The running record of one provider.
struct PspTally {
    name: String,
    total: usize,
    approvals: usize,
    declines: usize,
    latency: u128,
}

spec fn tally_counts(tally: PspTally, attempts: Seq<RoutingAttemptView>) -> bool {
    &&& tally.total == attempts_at(attempts, tally.name@)
    &&& tally.approvals == approvals_at(attempts, tally.name@)
    &&& tally.declines == declines_at(attempts, tally.name@)
    &&& tally.latency == latency_at(attempts, tally.name@)
}

spec fn tallies_match(tallies: Seq<PspTally>, attempts: Seq<RoutingAttemptView>) -> bool {
    &&& tallies.len() == names_seen(attempts).len()
    &&& forall|k: int|
        0 <= k < tallies.len() ==> {
            &&& (#[trigger] tallies[k]).name@ == names_seen(attempts)[k]
            &&& tally_counts(tallies[k], attempts)
        }
}

/// Finds the tally of a provider.
fn find_tally(tallies: &Vec<PspTally>, name: &str) -> (found: Option<usize>)
    ensures
        match found {
            Some(k) => k < tallies.len() && tallies[k as int].name@ == name@,
            None => forall|k: int| 0 <= k < tallies.len() ==> (#[trigger] tallies[k]).name@ != name@,
        },
{
    let mut k: usize = 0;
    while k < tallies.len()
        invariant
            k <= tallies.len(),
            forall|j: int| 0 <= j < k ==> (#[trigger] tallies[j]).name@ != name@,
        decreases tallies.len() - k,
    {
        if same_text(tallies[k].name.as_str(), name) {
            return Some(k);
        }
        k = k + 1;
    }
    None
}

/// Counts one attempt in.
fn tally_attempt(
    tallies: &mut Vec<PspTally>,
    attempt: &RoutingAttempt,
    Ghost(before): Ghost<Seq<RoutingAttemptView>>,
)
    requires
        tallies_match(old(tallies)@, before),
        before.len() < usize::MAX,
    ensures
        tallies_match(final(tallies)@, before.push(attempt@)),
{
    let ghost after = before.push(attempt@);
    let ghost old_tallies = tallies@;
    proof {
        assert(after.drop_last() =~= before);
        assert(after.last() == attempt@);
        lemma_names_seen(before);
        lemma_psp_counts_bounded(before, attempt@.psp_name);
    }
    let is_cascade = match attempt.decline_reason {
        Some(reason) => reason.is_psp_unavailable(),
        None => false,
    };
    let found = find_tally(tallies, attempt.psp_name.as_str());
    match found {
        Some(k) => {
            proof {
                assert(names_seen(before)[k as int] == attempt@.psp_name);
                assert(names_seen(before).contains(attempt@.psp_name));
                assert(names_seen(after) == names_seen(before));
                assert(latency_at(before, attempt@.psp_name) + u64::MAX <= u128::MAX)
                    by (nonlinear_arith)
                    requires
                        latency_at(before, attempt@.psp_name) <= attempts_at(
                            before,
                            attempt@.psp_name,
                        ) * u64::MAX,
                        attempts_at(before, attempt@.psp_name) < usize::MAX,
                ;
            }
            let tally = &tallies[k];
            let updated = PspTally {
                name: tally.name.clone(),
                total: tally.total + 1,
                approvals: if attempt.approved {
                    tally.approvals + 1
                } else {
                    tally.approvals
                },
                declines: if !attempt.approved && !is_cascade {
                    tally.declines + 1
                } else {
                    tally.declines
                },
                latency: tally.latency + attempt.latency_ms as u128,
            };
            tallies.set(k, updated);
            proof {
                assert forall|j: int| 0 <= j < tallies.len() implies {
                    &&& (#[trigger] tallies[j]).name@ == names_seen(after)[j]
                    &&& tally_counts(tallies[j], after)
                } by {
                    if j != k {
                        assert(tallies[j] == old_tallies[j]);
                        assert(names_seen(before)[j] != names_seen(before)[k as int]);
                    }
                }
            }
        },
        None => {
            proof {
                if names_seen(before).contains(attempt@.psp_name) {
                    let j = choose|j: int|
                        0 <= j < names_seen(before).len() && names_seen(before)[j]
                            == attempt@.psp_name;
                    assert(old_tallies[j].name@ == attempt@.psp_name);
                }
                assert(names_seen(after) == names_seen(before).push(attempt@.psp_name));
                assert(attempts_at(before, attempt@.psp_name) == 0);
            }
            tallies.push(
                PspTally {
                    name: attempt.psp_name.clone(),
                    total: 1,
                    approvals: if attempt.approved {
                        1
                    } else {
                        0
                    },
                    declines: if !attempt.approved && !is_cascade {
                        1
                    } else {
                        0
                    },
                    latency: attempt.latency_ms as u128,
                },
            );
            proof {
                assert forall|j: int| 0 <= j < tallies.len() implies {
                    &&& (#[trigger] tallies[j]).name@ == names_seen(after)[j]
                    &&& tally_counts(tallies[j], after)
                } by {
                    if j < old_tallies.len() {
                        assert(tallies[j] == old_tallies[j]);
                    }
                }
            }
        },
    }
}

/// The stream of some results and then some attempts of the next is a part
/// of the stream of all results.
proof fn lemma_stream_grows(results: Seq<RoutingResultView>, r: int)
    requires
        0 <= r < results.len(),
    ensures
        attempt_stream(results.take(r + 1)) == attempt_stream(results.take(r))
            + results[r].attempts,
        attempt_stream(results.take(r + 1)).len() <= attempt_stream(results).len(),
    decreases results.len() - r,
{
    assert(results.take(r + 1).drop_last() =~= results.take(r));
    assert(results.take(r + 1).last() == results[r]);
    if r + 1 < results.len() {
        lemma_stream_grows(results, r + 1);
    } else {
        assert(results.take(r + 1) =~= results);
    }
}

/// The record of each provider over all attempts of the results. The
/// number of attempts must fit the counters.
pub fn build_psp_breakdown(results: &Vec<RoutingResult>) -> (entries: Vec<PspBreakdown>)
    requires
        attempt_stream(results.deep_view()).len() <= usize::MAX,
    ensures
        is_psp_breakdown(entries.deep_view(), attempt_stream(results.deep_view())),
{
    let ghost all = results.deep_view();
    let mut tallies: Vec<PspTally> = Vec::new();
    let mut r: usize = 0;
    assert(all.take(0) =~= Seq::<RoutingResultView>::empty());
    while r < results.len()
        invariant
            r <= results.len(),
            all == results.deep_view(),
            attempt_stream(all).len() <= usize::MAX,
            tallies_match(tallies@, attempt_stream(all.take(r as int))),
        decreases results.len() - r,
    {
        let attempts = &results[r].attempts;
        let ghost before = attempt_stream(all.take(r as int));
        let ghost these = all[r as int].attempts;
        proof {
            lemma_stream_grows(all, r as int);
            assert(these == attempts.deep_view());
            assert(before + these.take(0) =~= before);
        }
        let mut a: usize = 0;
        while a < attempts.len()
            invariant
                a <= attempts.len(),
                these == attempts.deep_view(),
                (before + these).len() <= usize::MAX,
                tallies_match(tallies@, before + these.take(a as int)),
            decreases attempts.len() - a,
        {
            proof {
                assert((before + these.take(a as int)).push(attempts[a as int]@) =~= before
                    + these.take(a + 1));
            }
            tally_attempt(&mut tallies, &attempts[a], Ghost(before + these.take(a as int)));
            a = a + 1;
        }
        proof {
            assert(these.take(attempts.len() as int) =~= these);
        }
        r = r + 1;
    }
    let ghost stream = attempt_stream(all);
    assert(all.take(results.len() as int) =~= all);
    let mut entries: Vec<PspBreakdown> = Vec::new();
    let mut k: usize = 0;
    while k < tallies.len()
        invariant
            k <= tallies.len(),
            tallies_match(tallies@, stream),
            entries.len() == k,
            forall|i: int|
                0 <= i < k ==> {
                    &&& (#[trigger] entries[i])@.psp_name == names_seen(stream)[i]
                    &&& is_psp_metrics(entries[i]@.metrics, stream, entries[i]@.psp_name)
                },
        decreases tallies.len() - k,
    {
        let tally = &tallies[k];
        proof {
            lemma_psp_counts_bounded(stream, tally.name@);
            assert(tally_counts(*tally, stream));
            assert(tally.latency as nat * 100 == latency_at(stream, tally.name@) * 100);
        }
        let metrics = PspMetrics {
            total_attempts: tally.total,
            approvals: tally.approvals,
            declines: tally.declines,
            approval_rate_hundredths: share_hundredths(tally.approvals, tally.total),
            avg_latency_hundredths: mean_times(tally.latency, tally.total, 100),
        };
        entries.push(PspBreakdown { psp_name: tally.name.clone(), metrics });
        k = k + 1;
    }
    proof {
        assert forall|i: int| 0 <= i < entries.deep_view().len() implies {
            &&& (#[trigger] entries.deep_view()[i]).psp_name == names_seen(stream)[i]
            &&& is_psp_metrics(
                entries.deep_view()[i].metrics,
                stream,
                entries.deep_view()[i].psp_name,
            )
        } by {
            assert(entries.deep_view()[i] == entries[i]@);
        }
    }
    entries
}

} // verus!
