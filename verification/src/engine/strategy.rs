//! The order in which the providers of a country are tried.

use crate::models::psp::{PspConfig, PspConfigView};
use crate::models::routing::RoutingStrategy;
use vstd::prelude::*;

verus! {

/// The highest total fee among the providers, zero for none.
pub open spec fn max_total_fee(psps: Seq<PspConfigView>) -> nat
    decreases psps.len(),
{
    if psps.len() == 0 {
        0
    } else {
        let rest = max_total_fee(psps.drop_last());
        if psps.last().total_fee() > rest {
            psps.last().total_fee()
        } else {
            rest
        }
    }
}

/// The balanced score of a provider among providers whose highest total fee
/// is `max_fee`: seven parts success rate and three parts of what the
/// provider saves against the most expensive one, that is
/// `0.7 * rate + 0.3 * (1 - fee / max_fee)`, scaled by `100000 * max_fee`
/// to make it an integer. Where no provider charges anything the saving is
/// the same for all and the success rate alone decides.
pub open spec fn balanced_score(psp: PspConfigView, max_fee: nat) -> int {
    if max_fee > 0 {
        7 * psp.success_rate_bps * max_fee + 30000 * (max_fee - psp.total_fee())
    } else {
        psp.success_rate_bps as int
    }
}

/// The number by which a strategy orders providers: the lower, the earlier.
pub open spec fn order_key(psp: PspConfigView, strategy: RoutingStrategy, max_fee: nat) -> int {
    match strategy {
        RoutingStrategy::OptimizeForApprovals => -(psp.success_rate_bps as int),
        RoutingStrategy::OptimizeForCost => psp.total_fee() as int,
        RoutingStrategy::Balanced => -balanced_score(psp, max_fee),
    }
}

/// Where a provider is inserted into an ordered list: behind every provider
/// that does not have to come after it, so that equal providers keep the
/// order in which they arrived.
pub open spec fn insertion_point(
    sorted: Seq<PspConfigView>,
    psp: PspConfigView,
    strategy: RoutingStrategy,
    max_fee: nat,
) -> nat
    decreases sorted.len(),
{
    if sorted.len() == 0 {
        0
    } else if order_key(sorted.last(), strategy, max_fee) <= order_key(psp, strategy, max_fee) {
        sorted.len()
    } else {
        insertion_point(sorted.drop_last(), psp, strategy, max_fee)
    }
}

/// The first `n` providers of a list in the order of a strategy.
pub open spec fn ordered_prefix(
    psps: Seq<PspConfigView>,
    n: nat,
    strategy: RoutingStrategy,
    max_fee: nat,
) -> Seq<PspConfigView>
    decreases n,
{
    if n == 0 || n > psps.len() {
        Seq::empty()
    } else {
        let before = ordered_prefix(psps, (n - 1) as nat, strategy, max_fee);
        let psp = psps[n - 1];
        before.insert(insertion_point(before, psp, strategy, max_fee) as int, psp)
    }
}

/// The providers in the order of a strategy: by ascending key, providers
/// with equal keys in the order in which they are given.
pub open spec fn psp_order(psps: Seq<PspConfigView>, strategy: RoutingStrategy) -> Seq<
    PspConfigView,
> {
    ordered_prefix(psps, psps.len(), strategy, max_total_fee(psps))
}

/// True when no provider of the list has to come after a later one.
pub open spec fn in_order(psps: Seq<PspConfigView>, strategy: RoutingStrategy, max_fee: nat) -> bool {
    forall|i: int, j: int|
        0 <= i < j < psps.len() ==> order_key(#[trigger] psps[i], strategy, max_fee) <= order_key(
            #[trigger] psps[j],
            strategy,
            max_fee,
        )
}

/// The insertion point lies within the list, everything from it on has to
/// come after the provider, and what stands just before it has not.
pub proof fn lemma_insertion_point(
    sorted: Seq<PspConfigView>,
    psp: PspConfigView,
    strategy: RoutingStrategy,
    max_fee: nat,
)
    ensures
        insertion_point(sorted, psp, strategy, max_fee) <= sorted.len(),
        forall|i: int|
            insertion_point(sorted, psp, strategy, max_fee) <= i < sorted.len() ==> order_key(
                #[trigger] sorted[i],
                strategy,
                max_fee,
            ) > order_key(psp, strategy, max_fee),
        insertion_point(sorted, psp, strategy, max_fee) > 0 ==> order_key(
            sorted[insertion_point(sorted, psp, strategy, max_fee) - 1],
            strategy,
            max_fee,
        ) <= order_key(psp, strategy, max_fee),
    decreases sorted.len(),
{
    if sorted.len() == 0 {
    } else if order_key(sorted.last(), strategy, max_fee) <= order_key(psp, strategy, max_fee) {
    } else {
        lemma_insertion_point(sorted.drop_last(), psp, strategy, max_fee);
        let p = insertion_point(sorted.drop_last(), psp, strategy, max_fee);
        assert forall|i: int| p <= i < sorted.len() implies order_key(
            #[trigger] sorted[i],
            strategy,
            max_fee,
        ) > order_key(psp, strategy, max_fee) by {
            if i < sorted.len() - 1 {
                assert(sorted[i] == sorted.drop_last()[i]);
            }
        }
        if p > 0 {
            assert(sorted[p - 1] == sorted.drop_last()[p - 1]);
        }
    }
}

/// What holds of the ordered prefix: it has `n` providers; it is in order;
/// each of its providers is one of the first `n` of the list, and each of
/// those is in it as often as among them.
pub proof fn lemma_ordered_prefix(
    psps: Seq<PspConfigView>,
    n: nat,
    strategy: RoutingStrategy,
    max_fee: nat,
)
    requires
        n <= psps.len(),
    ensures
        ordered_prefix(psps, n, strategy, max_fee).len() == n,
        in_order(ordered_prefix(psps, n, strategy, max_fee), strategy, max_fee),
        ordered_prefix(psps, n, strategy, max_fee).to_multiset() == psps.take(
            n as int,
        ).to_multiset(),
    decreases n,
{
    if n == 0 {
        assert(psps.take(0) =~= Seq::<PspConfigView>::empty());
    } else {
        lemma_ordered_prefix(psps, (n - 1) as nat, strategy, max_fee);
        let before = ordered_prefix(psps, (n - 1) as nat, strategy, max_fee);
        let psp = psps[n - 1];
        let p = insertion_point(before, psp, strategy, max_fee);
        lemma_insertion_point(before, psp, strategy, max_fee);
        let after = before.insert(p as int, psp);
        assert(in_order(after, strategy, max_fee)) by {
            assert forall|i: int, j: int| 0 <= i < j < after.len() implies order_key(
                #[trigger] after[i],
                strategy,
                max_fee,
            ) <= order_key(#[trigger] after[j], strategy, max_fee) by {
                if j < p {
                    assert(after[i] == before[i] && after[j] == before[j]);
                } else if j == p {
                    assert(after[i] == before[i]);
                    if p > 0 {
                        if i < p - 1 {
                            assert(order_key(before[i], strategy, max_fee) <= order_key(
                                before[p - 1],
                                strategy,
                                max_fee,
                            ));
                        }
                    }
                } else if i < p {
                    assert(after[i] == before[i] && after[j] == before[j - 1]);
                } else if i == p {
                    assert(after[j] == before[j - 1]);
                } else {
                    assert(after[i] == before[i - 1] && after[j] == before[j - 1]);
                }
            }
        }
        assert(after.to_multiset() =~= before.to_multiset().insert(psp)) by {
            vstd::seq_lib::to_multiset_remove(after, p as int);
            assert(after.remove(p as int) =~= before);
            after.to_multiset_ensures();
            assert(after[p as int] == psp);
            assert(after.contains(psp));
        }
        assert(psps.take(n as int) =~= psps.take(n - 1).push(psp));
        vstd::seq_lib::to_multiset_build(psps.take(n - 1), psp);
    }
}

/// The order of a strategy rearranges the providers and loses none: it is
/// in order, as long as the list, and holds each provider as often as the
/// list does.
pub proof fn lemma_psp_order_is_sorted_permutation(
    psps: Seq<PspConfigView>,
    strategy: RoutingStrategy,
)
    ensures
        psp_order(psps, strategy).len() == psps.len(),
        in_order(psp_order(psps, strategy), strategy, max_total_fee(psps)),
        psp_order(psps, strategy).to_multiset() == psps.to_multiset(),
{
    lemma_ordered_prefix(psps, psps.len(), strategy, max_total_fee(psps));
    assert(psps.take(psps.len() as int) =~= psps);
}

/// Every provider of the ordered list is one of the given list.
pub proof fn lemma_psp_order_members(psps: Seq<PspConfigView>, strategy: RoutingStrategy, i: int)
    requires
        0 <= i < psps.len(),
    ensures
        psp_order(psps, strategy).len() == psps.len(),
        psps.contains(psp_order(psps, strategy)[i]),
{
    lemma_psp_order_is_sorted_permutation(psps, strategy);
    let ordered = psp_order(psps, strategy);
    ordered.to_multiset_ensures();
    psps.to_multiset_ensures();
    assert(ordered.contains(ordered[i]));
    assert(ordered.to_multiset().count(ordered[i]) > 0);
    assert(psps.to_multiset().count(ordered[i]) > 0);
}

/// The providers of a list that have a given key, in the order of the
/// list.
pub open spec fn with_key(
    psps: Seq<PspConfigView>,
    strategy: RoutingStrategy,
    max_fee: nat,
    key: int,
) -> Seq<PspConfigView>
    decreases psps.len(),
{
    if psps.len() == 0 {
        Seq::empty()
    } else {
        let before = with_key(psps.drop_last(), strategy, max_fee, key);
        if order_key(psps.last(), strategy, max_fee) == key {
            before.push(psps.last())
        } else {
            before
        }
    }
}

proof fn lemma_with_key_of_joined(
    first: Seq<PspConfigView>,
    second: Seq<PspConfigView>,
    strategy: RoutingStrategy,
    max_fee: nat,
    key: int,
)
    ensures
        with_key(first + second, strategy, max_fee, key) == with_key(
            first,
            strategy,
            max_fee,
            key,
        ) + with_key(second, strategy, max_fee, key),
    decreases second.len(),
{
    if second.len() == 0 {
        assert(first + second =~= first);
        assert(with_key(first, strategy, max_fee, key) + Seq::<PspConfigView>::empty() =~= with_key(
            first,
            strategy,
            max_fee,
            key,
        ));
    } else {
        let joined = first + second;
        assert(joined.drop_last() =~= first + second.drop_last());
        assert(joined.last() == second.last());
        lemma_with_key_of_joined(first, second.drop_last(), strategy, max_fee, key);
        let head = with_key(first, strategy, max_fee, key);
        let tail = with_key(second.drop_last(), strategy, max_fee, key);
        assert((head + tail).push(second.last()) =~= head + tail.push(second.last()));
    }
}

proof fn lemma_with_key_of_others(
    psps: Seq<PspConfigView>,
    strategy: RoutingStrategy,
    max_fee: nat,
    key: int,
)
    requires
        forall|i: int|
            0 <= i < psps.len() ==> order_key(#[trigger] psps[i], strategy, max_fee) != key,
    ensures
        with_key(psps, strategy, max_fee, key) == Seq::<PspConfigView>::empty(),
    decreases psps.len(),
{
    if psps.len() > 0 {
        assert forall|i: int| 0 <= i < psps.drop_last().len() implies order_key(
            #[trigger] psps.drop_last()[i],
            strategy,
            max_fee,
        ) != key by {
            assert(psps.drop_last()[i] == psps[i]);
        }
        lemma_with_key_of_others(psps.drop_last(), strategy, max_fee, key);
        assert(psps.last() == psps[psps.len() - 1]);
    }
}

proof fn lemma_ordered_prefix_is_stable(
    psps: Seq<PspConfigView>,
    n: nat,
    strategy: RoutingStrategy,
    max_fee: nat,
    key: int,
)
    requires
        n <= psps.len(),
    ensures
        with_key(ordered_prefix(psps, n, strategy, max_fee), strategy, max_fee, key) == with_key(
            psps.take(n as int),
            strategy,
            max_fee,
            key,
        ),
    decreases n,
{
    if n == 0 {
        assert(psps.take(0) =~= Seq::<PspConfigView>::empty());
    } else {
        lemma_ordered_prefix_is_stable(psps, (n - 1) as nat, strategy, max_fee, key);
        let before = ordered_prefix(psps, (n - 1) as nat, strategy, max_fee);
        let psp = psps[n - 1];
        let p = insertion_point(before, psp, strategy, max_fee) as int;
        lemma_insertion_point(before, psp, strategy, max_fee);
        let head = before.take(p);
        let tail = before.skip(p);
        let after = before.insert(p, psp);
        assert(before =~= head + tail);
        assert(after =~= head.push(psp) + tail);
        lemma_with_key_of_joined(head, tail, strategy, max_fee, key);
        lemma_with_key_of_joined(head.push(psp), tail, strategy, max_fee, key);
        assert(head.push(psp).drop_last() =~= head);
        assert(psps.take(n as int).drop_last() =~= psps.take(n - 1));
        assert(psps.take(n as int).last() == psp);
        if order_key(psp, strategy, max_fee) == key {
            assert forall|i: int| 0 <= i < tail.len() implies order_key(
                #[trigger] tail[i],
                strategy,
                max_fee,
            ) != key by {
                assert(tail[i] == before[p + i]);
            }
            lemma_with_key_of_others(tail, strategy, max_fee, key);
            let kept = with_key(head, strategy, max_fee, key);
            assert(kept + Seq::<PspConfigView>::empty() =~= kept);
            assert(kept.push(psp) + Seq::<PspConfigView>::empty() =~= kept.push(psp));
        }
    }
}

/// The order of a strategy is stable: the providers that the strategy does
/// not tell apart stand in it as they stand in the given list.
pub proof fn lemma_psp_order_is_stable(
    psps: Seq<PspConfigView>,
    strategy: RoutingStrategy,
    key: int,
)
    ensures
        with_key(psp_order(psps, strategy), strategy, max_total_fee(psps), key) == with_key(
            psps,
            strategy,
            max_total_fee(psps),
            key,
        ),
{
    lemma_ordered_prefix_is_stable(psps, psps.len(), strategy, max_total_fee(psps), key);
    assert(psps.take(psps.len() as int) =~= psps);
}

/// A provider's total fee: the percentage in basis points plus the fixed
/// fee in cents.
fn total_fee(psp: &PspConfig) -> (fee: u128)
    ensures
        fee == psp@.total_fee(),
        fee <= 2 * u64::MAX,
{
    psp.fee_bps as u128 + psp.fee_fixed_cents as u128
}

/// The highest total fee among the providers.
fn highest_fee(psps: &Vec<PspConfig>) -> (fee: u128)
    ensures
        fee == max_total_fee(psps.deep_view()),
        fee <= 2 * u64::MAX,
{
    let mut fee: u128 = 0;
    let mut i: usize = 0;
    assert(psps.deep_view().take(0) =~= Seq::<PspConfigView>::empty());
    while i < psps.len()
        invariant
            i <= psps.len(),
            fee == max_total_fee(psps.deep_view().take(i as int)),
            fee <= 2 * u64::MAX,
        decreases psps.len() - i,
    {
        let f = total_fee(&psps[i]);
        proof {
            let upto = psps.deep_view().take(i + 1);
            assert(upto.drop_last() =~= psps.deep_view().take(i as int));
            assert(upto.last() == psps[i as int]@);
        }
        if f > fee {
            fee = f;
        }
        i = i + 1;
    }
    assert(psps.deep_view().take(psps.len() as int) =~= psps.deep_view());
    fee
}

/// True when `placed` has to come after `psp` under the strategy.
fn comes_after(placed: &PspConfig, psp: &PspConfig, strategy: &RoutingStrategy, max_fee: u128) -> (after: bool)
    requires
        max_fee <= 2 * u64::MAX,
    ensures
        after == (order_key(placed@, *strategy, max_fee as nat) > order_key(
            psp@,
            *strategy,
            max_fee as nat,
        )),
{
    match strategy {
        RoutingStrategy::OptimizeForApprovals => placed.success_rate_bps < psp.success_rate_bps,
        RoutingStrategy::OptimizeForCost => total_fee(placed) > total_fee(psp),
        RoutingStrategy::Balanced => {
            if max_fee > 0 {
                let placed_rate = placed.success_rate_bps as u128;
                let psp_rate = psp.success_rate_bps as u128;
                let placed_fee = total_fee(placed);
                let psp_fee = total_fee(psp);
                assert(7 * placed_rate * max_fee <= 7 * u32::MAX * (2 * u64::MAX))
                    by (nonlinear_arith)
                    requires
                        placed_rate <= u32::MAX,
                        max_fee <= 2 * u64::MAX,
                ;
                assert(7 * psp_rate * max_fee <= 7 * u32::MAX * (2 * u64::MAX))
                    by (nonlinear_arith)
                    requires
                        psp_rate <= u32::MAX,
                        max_fee <= 2 * u64::MAX,
                ;
                assert(7 * placed.success_rate_bps * max_fee == 7 * placed_rate * max_fee);
                assert(7 * psp.success_rate_bps * max_fee == 7 * psp_rate * max_fee);
                7 * placed_rate * max_fee + 30000 * psp_fee < 7 * psp_rate * max_fee + 30000
                    * placed_fee
            } else {
                placed.success_rate_bps < psp.success_rate_bps
            }
        },
    }
}

/// Orders the providers for a strategy and returns them as a new list:
/// highest success rate first, lowest total fee first, or best balanced
/// score first. Providers that the strategy does not tell apart keep their
/// order. The given list is only read.
pub fn select_psp_order(psps: &Vec<PspConfig>, strategy: &RoutingStrategy) -> (ordered: Vec<
    PspConfig,
>)
    ensures
        ordered.deep_view() == psp_order(psps.deep_view(), *strategy),
        ordered.len() == psps.len(),
        in_order(ordered.deep_view(), *strategy, max_total_fee(psps.deep_view())),
        ordered.deep_view().to_multiset() == psps.deep_view().to_multiset(),
{
    let max_fee = highest_fee(psps);
    let mut ordered: Vec<PspConfig> = Vec::new();
    let mut n: usize = 0;
    while n < psps.len()
        invariant
            n <= psps.len(),
            max_fee == max_total_fee(psps.deep_view()),
            max_fee <= 2 * u64::MAX,
            ordered.len() == n,
            ordered.deep_view() == ordered_prefix(
                psps.deep_view(),
                n as nat,
                *strategy,
                max_fee as nat,
            ),
        decreases psps.len() - n,
    {
        let psp = psps[n].clone();
        let ghost before = ordered.deep_view();
        let mut at: usize = ordered.len();
        let mut found = false;
        assert(before.take(at as int) =~= before);
        while at > 0 && !found
            invariant
                at <= ordered.len(),
                max_fee <= 2 * u64::MAX,
                ordered.deep_view() == before,
                insertion_point(before, psp@, *strategy, max_fee as nat) == insertion_point(
                    before.take(at as int),
                    psp@,
                    *strategy,
                    max_fee as nat,
                ),
                found ==> at > 0 && order_key(before[at - 1], *strategy, max_fee as nat)
                    <= order_key(psp@, *strategy, max_fee as nat),
            decreases at + if found { 0int } else { 1int },
        {
            proof {
                let upto = before.take(at as int);
                assert(upto.last() == ordered[at - 1]@);
                assert(upto.drop_last() =~= before.take(at - 1));
            }
            if comes_after(&ordered[at - 1], &psp, strategy, max_fee) {
                at = at - 1;
            } else {
                found = true;
            }
        }
        proof {
            let upto = before.take(at as int);
            if at > 0 {
                assert(upto.last() == before[at - 1]);
            }
            assert(insertion_point(before, psp@, *strategy, max_fee as nat) == at);
            assert(psps.deep_view()[n as int] == psp@);
        }
        ordered.insert(at, psp);
        assert(ordered.deep_view() =~= before.insert(at as int, psp@));
        n = n + 1;
    }
    proof {
        lemma_psp_order_is_sorted_permutation(psps.deep_view(), *strategy);
    }
    ordered
}

} // verus!
