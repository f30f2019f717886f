//! The three classes of decline reasons, as the engine asks for them.

use crate::models::psp::DeclineReason;
use vstd::prelude::*;

verus! {

/// True when the decline is permanent: the card itself cannot be charged,
/// and no other provider is tried.
pub fn is_hard_decline(reason: &DeclineReason) -> (b: bool)
    ensures
        b == reason.spec_is_hard(),
{
    reason.is_hard_decline()
}

/// True when the decline is the provider's own: another provider may
/// approve, and the next one is tried.
pub fn is_soft_decline(reason: &DeclineReason) -> (b: bool)
    ensures
        b == reason.spec_is_soft(),
{
    reason.is_soft_decline()
}

/// True when the provider was down: the next one is tried, and the attempt
/// does not count.
pub fn is_psp_unavailable(reason: &DeclineReason) -> (b: bool)
    ensures
        b == reason.spec_is_unavailable(),
{
    reason.is_psp_unavailable()
}

/// How many of the three classes a reason belongs to.
pub open spec fn class_count(reason: DeclineReason) -> nat {
    (if reason.spec_is_hard() {
        1nat
    } else {
        0nat
    }) + (if reason.spec_is_soft() {
        1nat
    } else {
        0nat
    }) + (if reason.spec_is_unavailable() {
        1nat
    } else {
        0nat
    })
}

/// Every decline reason belongs to exactly one of the three classes.
pub proof fn lemma_exactly_one_class(reason: DeclineReason)
    ensures
        class_count(reason) == 1,
{
}

} // verus!
