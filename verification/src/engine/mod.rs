//! The routing engine: the order of providers, the classes of declines, and
//! the walk through the providers with retry and cascade.

pub mod retry;
pub mod strategy;

use crate::engine::strategy::{lemma_psp_order_members, psp_order, select_psp_order};
use crate::models::psp::{DeclineReason, PspConfigView, PspResponse, PspResponseView};
use crate::models::routing::{
    counted_attempts, latency_sum, RoutingAttempt, RoutingAttemptView, RoutingResult,
    RoutingResultView, RoutingStrategy,
};
use crate::models::transaction::{Transaction, TransactionView};
use crate::simulator::config::{
    catalog, catalog_entry_sound, get_psps_for_country, CATALOG_LATENCY_CEILING_MS,
};
use crate::simulator::{lemma_process_model_valid, process_model, PspSimulator};
use vstd::prelude::*;

verus! {

/// How many attempts may count for one transaction. Attempts that met a
/// provider that was down do not count.
pub const MAX_ATTEMPTS: usize = 3;

/// The attempt that records a response under a number.
pub open spec fn attempt_of(response: PspResponseView, attempt_number: nat) -> RoutingAttemptView {
    RoutingAttemptView {
        psp_id: response.psp_id,
        psp_name: response.psp_name,
        approved: response.approved,
        decline_reason: response.decline_reason,
        latency_ms: response.latency_ms,
        attempt_number,
    }
}

/// The record of a routing before any provider was asked.
pub open spec fn fresh_result(transaction_id: Seq<char>) -> RoutingResultView {
    RoutingResultView {
        transaction_id,
        approved: false,
        final_psp: None,
        attempts: Seq::empty(),
        total_attempts: 0,
        total_latency_ms: 0,
    }
}

/// One step of the routing: the record after a response is added to it, and
/// whether the routing stops there.
///
/// The latency always adds up. A provider that was down is recorded under
/// the number of the next counted attempt and the routing goes on. Every
/// other response counts: an approval and a hard decline stop the routing,
/// a soft decline stops it once [`MAX_ATTEMPTS`] attempts have counted.
pub open spec fn record_model(state: RoutingResultView, response: PspResponseView) -> (
    RoutingResultView,
    bool,
) {
    let counted = state.total_attempts + 1;
    let recorded = RoutingResultView {
        attempts: state.attempts.push(attempt_of(response, counted)),
        total_latency_ms: state.total_latency_ms + response.latency_ms as nat,
        ..state
    };
    if response.decline_reason == Some(DeclineReason::PspUnavailable) {
        (recorded, false)
    } else if response.approved {
        (
            RoutingResultView {
                approved: true,
                final_psp: Some(response.psp_name),
                total_attempts: counted,
                ..recorded
            },
            true,
        )
    } else {
        (
            RoutingResultView {
                approved: false,
                final_psp: None,
                total_attempts: counted,
                ..recorded
            },
            match response.decline_reason {
                Some(reason) => reason.spec_is_hard() || counted >= MAX_ATTEMPTS,
                None => false,
            },
        )
    }
}

/// The record after the responses are added one by one, up to the one that
/// stops the routing.
pub open spec fn route_from(state: RoutingResultView, responses: Seq<PspResponseView>) -> RoutingResultView
    decreases responses.len(),
{
    if responses.len() == 0 {
        state
    } else {
        let (next, stop) = record_model(state, responses[0]);
        if stop {
            next
        } else {
            route_from(next, responses.drop_first())
        }
    }
}

/// The responses of the providers to a transaction, in the order given.
pub open spec fn responses_of(tx: TransactionView, psps: Seq<PspConfigView>) -> Seq<
    PspResponseView,
> {
    Seq::new(psps.len(), |i: int| process_model(tx, psps[i]))
}

/// The outcome of routing a transaction under a strategy.
pub open spec fn route_model(tx: TransactionView, strategy: RoutingStrategy) -> RoutingResultView {
    route_from(fresh_result(tx.id), responses_of(tx, psp_order(catalog(tx.country), strategy)))
}

/// The record of a single attempt, whatever its outcome.
pub open spec fn single_attempt(transaction_id: Seq<char>, response: PspResponseView) -> RoutingResultView {
    RoutingResultView {
        transaction_id,
        approved: response.approved,
        final_psp: if response.approved {
            Some(response.psp_name)
        } else {
            None
        },
        attempts: seq![attempt_of(response, 1)],
        total_attempts: 1,
        total_latency_ms: response.latency_ms as nat,
    }
}

/// The outcome of asking only the first provider of the country, in catalog
/// order.
pub open spec fn no_retry_model(tx: TransactionView) -> RoutingResultView {
    single_attempt(tx.id, process_model(tx, catalog(tx.country)[0]))
}

/// What holds of every record that the routing builds: approval and final
/// provider go together, the last attempt of an approved record is the
/// approval, latency and counted attempts are the sums over the attempts,
/// and the attempts are numbered by the counted attempts before them.
pub open spec fn consistent(result: RoutingResultView) -> bool {
    &&& result.approved <==> result.final_psp is Some
    &&& result.approved ==> {
        &&& result.attempts.len() > 0
        &&& result.attempts.last().approved
        &&& result.final_psp == Some(result.attempts.last().psp_name)
    }
    &&& result.total_latency_ms == latency_sum(result.attempts)
    &&& result.total_attempts == counted_attempts(result.attempts)
    &&& forall|i: int|
        0 <= i < result.attempts.len() ==> (#[trigger] result.attempts[i]).attempt_number
            == counted_attempts(result.attempts.take(i)) + 1
}

/// Recording a response keeps a record consistent.
pub proof fn lemma_record_consistent(state: RoutingResultView, response: PspResponseView)
    requires
        consistent(state),
        !state.approved,
    ensures
        consistent(record_model(state, response).0),
        record_model(state, response).0.transaction_id == state.transaction_id,
        record_model(state, response).0.attempts.len() == state.attempts.len() + 1,
        !record_model(state, response).1 ==> !record_model(state, response).0.approved,
{
    let next = record_model(state, response).0;
    assert(next.attempts.drop_last() =~= state.attempts);
    assert(next.attempts.last() == attempt_of(response, state.total_attempts + 1));
    assert forall|i: int| 0 <= i < next.attempts.len() implies (
    #[trigger] next.attempts[i]).attempt_number == counted_attempts(next.attempts.take(i))
        + 1 by {
        if i < state.attempts.len() {
            assert(next.attempts[i] == state.attempts[i]);
            assert(next.attempts.take(i) =~= state.attempts.take(i));
        } else {
            assert(next.attempts.take(i) =~= state.attempts);
        }
    }
}

/// Whatever the providers answer, the record of a routing is consistent:
/// it is approved exactly when it names a final provider, the last attempt
/// of an approved record is the approval by that provider, the total
/// latency is the sum of the latencies of all attempts, the attempts
/// counted are those that did not meet a provider that was down, and each
/// attempt carries one more than the number of counted attempts before it.
pub proof fn lemma_route_consistent(state: RoutingResultView, responses: Seq<PspResponseView>)
    requires
        consistent(state),
        !state.approved,
    ensures
        consistent(route_from(state, responses)),
        route_from(state, responses).transaction_id == state.transaction_id,
        route_from(state, responses).attempts.len() <= state.attempts.len() + responses.len(),
        responses.len() > 0 ==> route_from(state, responses).attempts.len() > state.attempts.len(),
    decreases responses.len(),
{
    if responses.len() > 0 {
        lemma_record_consistent(state, responses[0]);
        let (next, stop) = record_model(state, responses[0]);
        if !stop {
            lemma_route_consistent(next, responses.drop_first());
        }
    }
}

/// When every response is approved exactly if it carries no decline reason,
/// no more than [`MAX_ATTEMPTS`] attempts of a routing count.
pub proof fn lemma_route_attempt_bound(state: RoutingResultView, responses: Seq<PspResponseView>)
    requires
        state.total_attempts < MAX_ATTEMPTS,
        forall|i: int| 0 <= i < responses.len() ==> (#[trigger] responses[i]).valid(),
    ensures
        route_from(state, responses).total_attempts <= MAX_ATTEMPTS,
    decreases responses.len(),
{
    if responses.len() > 0 {
        let (next, stop) = record_model(state, responses[0]);
        assert(responses[0].valid());
        if !stop {
            let rest = responses.drop_first();
            assert forall|i: int| 0 <= i < rest.len() implies (#[trigger] rest[i]).valid() by {
                assert(rest[i] == responses[i + 1]);
            }
            lemma_route_attempt_bound(next, rest);
        }
    }
}

/// True when an attempt lets the routing go on: it met a provider that was
/// down, or was declined for a soft reason.
pub open spec fn lets_go_on(attempt: RoutingAttemptView) -> bool {
    &&& !attempt.approved
    &&& attempt.decline_reason is Some
    &&& !attempt.decline_reason->0.spec_is_hard()
}

/// When every response is approved exactly if it carries no decline reason,
/// only the last attempt of a routing can be an approval or a hard decline:
/// every attempt before it lets the routing go on.
pub proof fn lemma_route_ends_at_the_last_attempt(
    state: RoutingResultView,
    responses: Seq<PspResponseView>,
)
    requires
        forall|i: int| 0 <= i < responses.len() ==> (#[trigger] responses[i]).valid(),
        forall|i: int| 0 <= i < state.attempts.len() ==> lets_go_on(#[trigger] state.attempts[i]),
    ensures
        forall|i: int|
            0 <= i < route_from(state, responses).attempts.len() - 1 ==> lets_go_on(
                #[trigger] route_from(state, responses).attempts[i],
            ),
    decreases responses.len(),
{
    if responses.len() > 0 {
        let (next, stop) = record_model(state, responses[0]);
        assert(responses[0].valid());
        assert(next.attempts.drop_last() =~= state.attempts);
        if stop {
            assert forall|i: int| 0 <= i < next.attempts.len() - 1 implies lets_go_on(
                #[trigger] next.attempts[i],
            ) by {
                assert(next.attempts[i] == state.attempts[i]);
            }
        } else {
            let rest = responses.drop_first();
            assert forall|i: int| 0 <= i < rest.len() implies (#[trigger] rest[i]).valid() by {
                assert(rest[i] == responses[i + 1]);
            }
            assert forall|i: int| 0 <= i < next.attempts.len() implies lets_go_on(
                #[trigger] next.attempts[i],
            ) by {
                if i < state.attempts.len() {
                    assert(next.attempts[i] == state.attempts[i]);
                }
            }
            lemma_route_ends_at_the_last_attempt(next, rest);
        }
    }
}

/// The record of any routing from a fresh record, over valid responses:
/// consistent, and with at most [`MAX_ATTEMPTS`] attempts that did not meet
/// a provider that was down.
pub proof fn lemma_route_invariants(transaction_id: Seq<char>, responses: Seq<PspResponseView>)
    requires
        forall|i: int| 0 <= i < responses.len() ==> (#[trigger] responses[i]).valid(),
    ensures
        consistent(route_from(fresh_result(transaction_id), responses)),
        counted_attempts(route_from(fresh_result(transaction_id), responses).attempts)
            <= MAX_ATTEMPTS,
        route_from(fresh_result(transaction_id), responses).transaction_id == transaction_id,
{
    let fresh = fresh_result(transaction_id);
    assert(latency_sum(fresh.attempts) == 0);
    assert(counted_attempts(fresh.attempts) == 0);
    lemma_route_consistent(fresh, responses);
    lemma_route_attempt_bound(fresh, responses);
}

/// Unfolds one step of a routing.
proof fn lemma_route_step(state: RoutingResultView, responses: Seq<PspResponseView>)
    requires
        responses.len() > 0,
    ensures
        route_from(state, responses) == if record_model(state, responses[0]).1 {
            record_model(state, responses[0]).0
        } else {
            route_from(record_model(state, responses[0]).0, responses.drop_first())
        },
        record_model(state, responses[0]).0.attempts.len() == state.attempts.len() + 1,
        record_model(state, responses[0]).0.total_attempts <= state.total_attempts + 1,
        record_model(state, responses[0]).0.total_latency_ms == state.total_latency_ms
            + responses[0].latency_ms,
{
}

/// True when a provider's latency band is not empty and ends within the
/// catalog's ceiling.
pub open spec fn in_catalog_band(psp: PspConfigView) -> bool {
    psp.latency_min_ms <= psp.latency_max_ms <= CATALOG_LATENCY_CEILING_MS
}

/// Builds the attempt that records a response under a number.
pub fn build_attempt(response: &PspResponse, attempt_number: usize) -> (attempt: RoutingAttempt)
    ensures
        attempt@ == attempt_of(response@, attempt_number as nat),
{
    RoutingAttempt {
        psp_id: response.psp_id.clone(),
        psp_name: response.psp_name.clone(),
        approved: response.approved,
        decline_reason: response.decline_reason,
        latency_ms: response.latency_ms,
        attempt_number,
    }
}

impl RoutingResult {
    /// The record of a routing before any provider was asked.
    pub fn begin(transaction_id: &str) -> (result: RoutingResult)
        ensures
            result@ == fresh_result(transaction_id@),
            result.attempts.len() == 0,
            result.total_attempts == 0,
            result.total_latency_ms == 0,
    {
        let result = RoutingResult {
            transaction_id: String::from_str(transaction_id),
            approved: false,
            final_psp: None,
            attempts: Vec::new(),
            total_attempts: 0,
            total_latency_ms: 0,
        };
        assert(result.attempts.deep_view() =~= Seq::<RoutingAttemptView>::empty());
        result
    }

    /// Adds a response to the record and says whether the routing stops
    /// there. The sums must fit their fields.
    pub fn record(&mut self, response: &PspResponse) -> (stop: bool)
        requires
            old(self).total_latency_ms + response.latency_ms <= u64::MAX,
            old(self).total_attempts < usize::MAX,
        ensures
            (final(self)@, stop) == record_model(old(self)@, response@),
    {
        let counted = self.total_attempts + 1;
        let ghost before = self.attempts.deep_view();
        self.attempts.push(build_attempt(response, counted));
        assert(self.attempts.deep_view() =~= before.push(attempt_of(response@, counted as nat)));
        self.total_latency_ms = self.total_latency_ms + response.latency_ms;
        if let Some(reason) = response.decline_reason {
            if retry::is_psp_unavailable(&reason) {
                return false;
            }
        }
        self.total_attempts = counted;
        if response.approved {
            self.approved = true;
            self.final_psp = Some(response.psp_name.clone());
            return true;
        }
        self.approved = false;
        self.final_psp = None;
        match response.decline_reason {
            Some(reason) => retry::is_hard_decline(&reason) || counted >= MAX_ATTEMPTS,
            None => false,
        }
    }
}

/// The engine that routes a transaction through the providers of its
/// country. It holds no state between calls.
#[derive(Clone, Copy, Debug)]
pub struct RoutingEngine {
    simulator: PspSimulator,
}

impl RoutingEngine {
    /// The simulator that the engine asks.
    pub closed spec fn simulator(self) -> PspSimulator {
        self.simulator
    }

    /// An engine that asks the given simulator.
    pub fn new(simulator: PspSimulator) -> (engine: Self)
        ensures
            engine.simulator() == simulator,
    {
        RoutingEngine { simulator }
    }

    /// Routes a transaction with retry: the providers of its country are
    /// ordered by the strategy and asked in turn, until one approves, the
    /// card is declined for good, the attempts are used up, or no provider
    /// is left.
    pub fn route(&self, transaction: &Transaction, strategy: &RoutingStrategy) -> (result: RoutingResult)
        ensures
            result@ == route_model(transaction@, *strategy),
            result@.transaction_id == transaction@.id,
            consistent(result@),
            counted_attempts(result@.attempts) <= MAX_ATTEMPTS,
            1 <= result@.attempts.len() <= 3,
            result@.total_latency_ms <= 3 * CATALOG_LATENCY_CEILING_MS,
    {
        let psps = get_psps_for_country(&transaction.country);
        let ordered = select_psp_order(&psps, strategy);
        let mut result = RoutingResult::begin(transaction.id.as_str());
        let ghost responses = responses_of(transaction@, ordered.deep_view());
        proof {
            assert forall|k: int| 0 <= k < 3 implies in_catalog_band(#[trigger] ordered[k]@) by {
                lemma_psp_order_members(psps.deep_view(), *strategy, k);
                let member = ordered.deep_view()[k];
                let j = choose|j: int| 0 <= j < 3 && psps.deep_view()[j] == member;
                assert(psps[j]@ == member);
                assert(catalog_entry_sound(psps[j]@));
            }
            assert(responses.subrange(0, 3) =~= responses);
            assert forall|k: int| 0 <= k < responses.len() implies (#[trigger] responses[k]).valid() by {
                lemma_process_model_valid(transaction@, ordered.deep_view()[k]);
            }
            lemma_route_invariants(transaction@.id, responses);
        }
        let ghost target = route_model(transaction@, *strategy);
        let mut i: usize = 0;
        while i < ordered.len()
            invariant
                i <= ordered.len() == 3,
                responses.len() == 3,
                forall|k: int|
                    0 <= k < 3 ==> #[trigger] responses[k] == process_model(
                        transaction@,
                        ordered[k]@,
                    ),
                forall|k: int| 0 <= k < 3 ==> in_catalog_band(#[trigger] ordered[k]@),
                target == route_model(transaction@, *strategy),
                target == route_from(result@, responses.subrange(i as int, 3)),
                consistent(target),
                counted_attempts(target.attempts) <= MAX_ATTEMPTS,
                target.transaction_id == transaction@.id,
                result.total_attempts <= i,
                result.attempts.len() == i,
                result.total_latency_ms <= i * CATALOG_LATENCY_CEILING_MS,
            decreases ordered.len() - i,
        {
            let ghost state = result@;
            let ghost rest = responses.subrange(i as int, 3);
            assert(in_catalog_band(ordered[i as int]@));
            let response = self.simulator.process(transaction, &ordered[i]);
            proof {
                assert(rest[0] == responses[i as int]);
                assert(rest.drop_first() =~= responses.subrange(i + 1, 3));
            }
            let stop = result.record(&response);
            proof {
                lemma_route_step(state, rest);
            }
            if stop {
                return result;
            }
            i = i + 1;
        }
        assert(responses.subrange(3, 3).len() == 0);
        result
    }

    /// Routes a transaction without retry: the first provider of its
    /// country, in catalog order, is asked once, and its answer stands.
    pub fn route_no_retry(&self, transaction: &Transaction) -> (result: RoutingResult)
        ensures
            result@ == no_retry_model(transaction@),
            result@.transaction_id == transaction@.id,
            result@.total_latency_ms <= CATALOG_LATENCY_CEILING_MS,
    {
        let psps = get_psps_for_country(&transaction.country);
        if psps.len() == 0 {
            return RoutingResult::begin(transaction.id.as_str());
        }
        assert(catalog_entry_sound(psps[0]@));
        assert(psps.deep_view()[0] == psps[0]@);
        let response = self.simulator.process(transaction, &psps[0]);
        let mut attempts: Vec<RoutingAttempt> = Vec::new();
        attempts.push(build_attempt(&response, 1));
        assert(attempts.deep_view() =~= seq![attempt_of(response@, 1)]);
        RoutingResult {
            transaction_id: transaction.id.clone(),
            approved: response.approved,
            final_psp: if response.approved {
                Some(response.psp_name.clone())
            } else {
                None
            },
            attempts,
            total_attempts: 1,
            total_latency_ms: response.latency_ms,
        }
    }
}

} // verus!
