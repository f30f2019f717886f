use payment_routing::engine::retry::{is_hard_decline, is_psp_unavailable, is_soft_decline};
use payment_routing::models::psp::DeclineReason;

fn all_reasons() -> Vec<DeclineReason> {
    vec![
        DeclineReason::InsufficientFunds,
        DeclineReason::CardExpired,
        DeclineReason::InvalidCard,
        DeclineReason::StolenCard,
        DeclineReason::IssuerUnavailable,
        DeclineReason::SuspectedFraud,
        DeclineReason::DoNotHonor,
        DeclineReason::ProcessorDeclined,
        DeclineReason::PspUnavailable,
    ]
}

#[test]
fn test_hard_declines_are_classified_correctly() {
    let hard_reasons = vec![
        DeclineReason::InsufficientFunds,
        DeclineReason::CardExpired,
        DeclineReason::InvalidCard,
        DeclineReason::StolenCard,
    ];

    for reason in &hard_reasons {
        assert!(is_hard_decline(reason), "{} should be a hard decline", reason.label());
        assert!(!is_soft_decline(reason), "{} should NOT be a soft decline", reason.label());
        assert!(!is_psp_unavailable(reason), "{} should NOT be psp_unavailable", reason.label());
    }
}

#[test]
fn test_soft_declines_are_classified_correctly() {
    let soft_reasons = vec![
        DeclineReason::IssuerUnavailable,
        DeclineReason::SuspectedFraud,
        DeclineReason::DoNotHonor,
        DeclineReason::ProcessorDeclined,
    ];

    for reason in &soft_reasons {
        assert!(is_soft_decline(reason), "{} should be a soft decline", reason.label());
        assert!(!is_hard_decline(reason), "{} should NOT be a hard decline", reason.label());
        assert!(!is_psp_unavailable(reason), "{} should NOT be psp_unavailable", reason.label());
    }
}

#[test]
fn test_psp_unavailable_is_classified_correctly() {
    let reason = DeclineReason::PspUnavailable;
    assert!(is_psp_unavailable(&reason));
    assert!(!is_hard_decline(&reason));
    assert!(!is_soft_decline(&reason));
}

#[test]
fn test_all_reasons_are_classified_into_exactly_one_category() {
    for reason in &all_reasons() {
        let categories = [
            is_hard_decline(reason),
            is_soft_decline(reason),
            is_psp_unavailable(reason),
        ];
        let count = categories.iter().filter(|&&v| v).count();
        assert_eq!(
            count,
            1,
            "{} must belong to exactly one category, found {}",
            reason.label(),
            count
        );
    }
}

#[test]
fn methods_classify_as_the_free_functions_do() {
    for reason in &all_reasons() {
        assert_eq!(reason.is_hard_decline(), is_hard_decline(reason));
        assert_eq!(reason.is_soft_decline(), is_soft_decline(reason));
        assert_eq!(reason.is_psp_unavailable(), is_psp_unavailable(reason));
    }
}

#[test]
fn labels_are_snake_case_names() {
    let labels: Vec<&str> = all_reasons().iter().map(|r| r.label()).collect();
    assert_eq!(
        labels,
        vec![
            "insufficient_funds",
            "card_expired",
            "invalid_card",
            "stolen_card",
            "issuer_unavailable",
            "suspected_fraud",
            "do_not_honor",
            "processor_declined",
            "psp_unavailable",
        ]
    );
}
