use payment_routing::engine::strategy::select_psp_order;
use payment_routing::models::psp::PspConfig;
use payment_routing::models::routing::RoutingStrategy;
use payment_routing::models::transaction::Country;

// Rates are given in basis points (0.65 is 6500), percentage fees in basis
// points (2.5 is 250), fixed fees in cents.
fn make_psp(id: &str, success_rate_bps: u32, fee_bps: u64, fee_fixed: u64) -> PspConfig {
    PspConfig {
        id: id.to_string(),
        name: id.to_string(),
        country: Country::Brazil,
        success_rate_bps,
        latency_min_ms: 100,
        latency_max_ms: 300,
        fee_bps,
        fee_fixed_cents: fee_fixed,
    }
}

fn ids(psps: &[PspConfig]) -> Vec<&str> {
    psps.iter().map(|p| p.id.as_str()).collect()
}

#[test]
fn test_optimize_for_approvals_sorts_by_success_rate_descending() {
    let psps = vec![
        make_psp("low", 6500, 250, 30),
        make_psp("high", 8500, 350, 20),
        make_psp("mid", 7500, 300, 25),
    ];

    let ordered = select_psp_order(&psps, &RoutingStrategy::OptimizeForApprovals);
    assert_eq!(ordered[0].id, "high");
    assert_eq!(ordered[1].id, "mid");
    assert_eq!(ordered[2].id, "low");
}

#[test]
fn test_optimize_for_cost_sorts_by_total_fee_ascending() {
    let psps = vec![
        make_psp("expensive", 8000, 350, 40), // 3.5 + 0.40 = 3.90
        make_psp("cheap", 7000, 200, 20),     // 2.0 + 0.20 = 2.20
        make_psp("mid", 7500, 280, 30),       // 2.8 + 0.30 = 3.10
    ];

    let ordered = select_psp_order(&psps, &RoutingStrategy::OptimizeForCost);
    assert_eq!(ordered[0].id, "cheap");
    assert_eq!(ordered[1].id, "mid");
    assert_eq!(ordered[2].id, "expensive");
}

#[test]
fn test_balanced_strategy_weighs_success_and_cost() {
    // Scores (highest fee 3.90):
    //   A: 0.90*0.7 + (1 - 1.000)*0.3 = 0.630
    //   B: 0.60*0.7 + (1 - 0.564)*0.3 = 0.551
    //   C: 0.78*0.7 + (1 - 0.705)*0.3 = 0.635
    let psps = vec![
        make_psp("A", 9000, 350, 40), // total fee 3.90
        make_psp("B", 6000, 200, 20), // total fee 2.20
        make_psp("C", 7800, 250, 25), // total fee 2.75
    ];

    let ordered = select_psp_order(&psps, &RoutingStrategy::Balanced);

    assert_eq!(ordered[0].id, "C");
    assert_eq!(ordered[1].id, "A");
    assert_eq!(ordered[2].id, "B");
}

#[test]
fn test_empty_psp_list_returns_empty() {
    let psps: Vec<PspConfig> = vec![];
    let ordered = select_psp_order(&psps, &RoutingStrategy::OptimizeForApprovals);
    assert!(ordered.is_empty());
}

#[test]
fn test_single_psp_returns_unchanged() {
    let psps = vec![make_psp("solo", 8000, 300, 25)];
    let ordered = select_psp_order(&psps, &RoutingStrategy::Balanced);
    assert_eq!(ordered.len(), 1);
    assert_eq!(ordered[0].id, "solo");
}

#[test]
fn test_original_list_is_not_mutated() {
    let psps = vec![make_psp("low", 6500, 250, 30), make_psp("high", 8500, 350, 20)];

    let _ = select_psp_order(&psps, &RoutingStrategy::OptimizeForApprovals);

    assert_eq!(psps[0].id, "low");
    assert_eq!(psps[1].id, "high");
}

#[test]
fn equal_keys_keep_their_order() {
    let psps = vec![
        make_psp("first", 7000, 300, 0),
        make_psp("second", 7000, 200, 100),
        make_psp("better", 8000, 250, 50),
        make_psp("third", 7000, 100, 200),
    ];
    let by_rate = select_psp_order(&psps, &RoutingStrategy::OptimizeForApprovals);
    assert_eq!(ids(&by_rate), vec!["better", "first", "second", "third"]);
    // All four charge 3.00 in total.
    let by_cost = select_psp_order(&psps, &RoutingStrategy::OptimizeForCost);
    assert_eq!(ids(&by_cost), vec!["first", "second", "better", "third"]);
    // With equal fees the balanced score follows the success rate.
    let balanced = select_psp_order(&psps, &RoutingStrategy::Balanced);
    assert_eq!(ids(&balanced), vec!["better", "first", "second", "third"]);
}

#[test]
fn balanced_without_fees_orders_by_success_rate() {
    let psps = vec![
        make_psp("low", 6000, 0, 0),
        make_psp("high", 9000, 0, 0),
        make_psp("mid", 7500, 0, 0),
    ];
    let ordered = select_psp_order(&psps, &RoutingStrategy::Balanced);
    assert_eq!(ids(&ordered), vec!["high", "mid", "low"]);
}

#[test]
fn balanced_tells_apart_one_basis_point() {
    // With equal fees only the success rate differs, by one basis point.
    let psps = vec![
        make_psp("A", 9000, 350, 40),
        make_psp("below", 8999, 350, 40),
        make_psp("above", 9001, 350, 40),
    ];
    let ordered = select_psp_order(&psps, &RoutingStrategy::Balanced);
    assert_eq!(ids(&ordered), vec!["above", "A", "below"]);
}

#[test]
fn balanced_ties_keep_their_order() {
    // Highest fee 400. Scaled by 100000 * 400:
    //   first:  7 * 8000 * 400 + 30000 * (400 - 400) = 22400000
    //   second: 7 * 5000 * 400 + 30000 * (400 - 120) = 22400000
    //   third:  7 * 6500 * 400 + 30000 * (400 - 260) = 22400000
    let psps = vec![
        make_psp("first", 8000, 400, 0),
        make_psp("second", 5000, 100, 20),
        make_psp("third", 6500, 200, 60),
        make_psp("best", 8001, 400, 0),
    ];
    let ordered = select_psp_order(&psps, &RoutingStrategy::Balanced);
    assert_eq!(ids(&ordered), vec!["best", "first", "second", "third"]);
}

#[test]
fn ordering_handles_the_largest_fees() {
    let psps = vec![
        make_psp("huge", 9000, u64::MAX, u64::MAX),
        make_psp("free", 1, 0, 0),
        make_psp("half", 5000, u64::MAX, 0),
    ];
    let by_cost = select_psp_order(&psps, &RoutingStrategy::OptimizeForCost);
    assert_eq!(ids(&by_cost), vec!["free", "half", "huge"]);
    let balanced = select_psp_order(&psps, &RoutingStrategy::Balanced);
    assert_eq!(balanced.len(), 3);
    // "huge" scores 0.63, "half" 0.35 + 0.15 = 0.50, "free" 0.00007 + 0.30.
    assert_eq!(ids(&balanced), vec!["huge", "half", "free"]);
}

#[test]
fn default_strategy_optimizes_for_approvals() {
    assert_eq!(RoutingStrategy::default(), RoutingStrategy::OptimizeForApprovals);
}
