use payment_routing::models::psp::DeclineReason;
use payment_routing::models::transaction::Country;
use payment_routing::simulator::config::{
    get_all_psps, get_decline_distribution, get_psps_for_country,
};

#[test]
fn test_each_country_has_three_psps() {
    assert_eq!(get_psps_for_country(&Country::Brazil).len(), 3);
    assert_eq!(get_psps_for_country(&Country::Mexico).len(), 3);
    assert_eq!(get_psps_for_country(&Country::Colombia).len(), 3);
}

#[test]
fn test_all_psps_returns_nine() {
    assert_eq!(get_all_psps().len(), 9);
}

#[test]
fn test_success_rates_are_valid() {
    for psp in get_all_psps() {
        let rate = psp.success_rate_bps as f64 / 10000.0;
        assert!(
            rate > 0.0 && rate < 1.0,
            "PSP {} has invalid success rate: {}",
            psp.name,
            rate
        );
    }
}

#[test]
fn test_decline_distributions_sum_to_one() {
    for psp in get_all_psps() {
        let dist = get_decline_distribution(&psp.id);
        let total: f64 = dist.iter().map(|d| d.weight_pct as f64 / 100.0).sum();
        assert!(
            (total - 1.0).abs() < 0.01,
            "PSP {} decline weights sum to {}, expected 1.0",
            psp.id,
            total
        );
    }
}

#[test]
fn catalog_holds_the_documented_providers() {
    let brazil = get_psps_for_country(&Country::Brazil);
    assert_eq!(brazil[0].id, "psp_br_1");
    assert_eq!(brazil[0].name, "PagSeguro");
    assert_eq!(brazil[0].success_rate_bps, 7800);
    assert_eq!((brazil[0].latency_min_ms, brazil[0].latency_max_ms), (200, 400));
    assert_eq!((brazil[0].fee_bps, brazil[0].fee_fixed_cents), (290, 30));
    assert_eq!(brazil[1].name, "Cielo");
    assert_eq!(brazil[2].name, "Stone");
    let mexico = get_psps_for_country(&Country::Mexico);
    let names: Vec<&str> = mexico.iter().map(|p| p.name.as_str()).collect();
    assert_eq!(names, vec!["Conekta", "OpenPay", "SR Pago"]);
    let colombia = get_psps_for_country(&Country::Colombia);
    let names: Vec<&str> = colombia.iter().map(|p| p.name.as_str()).collect();
    assert_eq!(names, vec!["PayU", "Wompi", "Bold"]);
    assert_eq!(colombia[2].success_rate_bps, 6500);
    assert_eq!((colombia[2].latency_min_ms, colombia[2].latency_max_ms), (280, 550));
}

#[test]
fn catalog_is_sound() {
    let all = get_all_psps();
    let mut seen: Vec<String> = vec![];
    for psp in &all {
        assert!(6500 <= psp.success_rate_bps && psp.success_rate_bps <= 8500);
        assert!(psp.latency_min_ms >= 150);
        assert!(psp.latency_min_ms <= psp.latency_max_ms);
        assert!(psp.latency_max_ms <= 600);
        assert!(!seen.contains(&psp.id));
        seen.push(psp.id.clone());
    }
    let countries: Vec<Country> = all.iter().map(|p| p.country).collect();
    assert_eq!(
        countries,
        vec![
            Country::Brazil,
            Country::Brazil,
            Country::Brazil,
            Country::Mexico,
            Country::Mexico,
            Country::Mexico,
            Country::Colombia,
            Country::Colombia,
            Country::Colombia,
        ]
    );
}

#[test]
fn every_catalog_provider_leans_on_one_soft_reason() {
    for psp in get_all_psps() {
        let dist = get_decline_distribution(&psp.id);
        assert_eq!(dist.len(), 4);
        assert_eq!(dist.iter().map(|d| d.weight_pct).sum::<u32>(), 100);
        assert_eq!(dist.iter().filter(|d| d.weight_pct == 45).count(), 1);
        for entry in &dist {
            assert!(entry.reason.is_soft_decline());
        }
        assert_eq!(dist[0].reason, DeclineReason::IssuerUnavailable);
        assert_eq!(dist[1].reason, DeclineReason::SuspectedFraud);
        assert_eq!(dist[2].reason, DeclineReason::DoNotHonor);
        assert_eq!(dist[3].reason, DeclineReason::ProcessorDeclined);
    }
}

#[test]
fn unknown_provider_gets_the_even_distribution() {
    let dist = get_decline_distribution("psp_xx_9");
    let weights: Vec<u32> = dist.iter().map(|d| d.weight_pct).collect();
    assert_eq!(weights, vec![25, 25, 25, 25]);
    let weights: Vec<u32> =
        get_decline_distribution("psp_br_2").iter().map(|d| d.weight_pct).collect();
    assert_eq!(weights, vec![15, 45, 25, 15]);
}
