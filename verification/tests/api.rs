use payment_routing::api::{
    authorize, build_transaction, generate_transaction_id, health, method_allowed,
    resolve_report_request, run_report, validate_request, Rejection, ValidationError,
    DEFAULT_TRANSACTION_COUNT,
};
use payment_routing::engine::{RoutingEngine, MAX_ATTEMPTS};
use payment_routing::models::psp::DeclineReason;
use payment_routing::models::report::ReportRequest;
use payment_routing::models::routing::{parse_strategy, AuthorizationRequest, RoutingStrategy};
use payment_routing::models::transaction::{parse_country, parse_currency, Country, Currency};
use payment_routing::simulator::PspSimulator;
use payment_routing::version;

// The request of an amount of 150.0 in Brazil.
fn brazil_request() -> AuthorizationRequest {
    AuthorizationRequest {
        amount_cents: 15000,
        amount_bits: 150.0f64.to_bits(),
        currency: "BRL".to_string(),
        country: "Brazil".to_string(),
        card_bin: "411111".to_string(),
        card_last4: "1234".to_string(),
        customer_id: "cust_001".to_string(),
        routing_strategy: None,
    }
}

#[test]
fn health_answers_ok_with_a_version() {
    let answer = health();
    assert_eq!(answer.status, "ok");
    assert!(!answer.version.is_empty());
    assert_eq!(answer.version, version());
    assert_eq!(version(), "0.1.0");
}

#[test]
fn only_post_is_allowed() {
    assert!(method_allowed("POST"));
    assert!(!method_allowed("GET"));
    assert!(!method_allowed("post"));
    assert!(!method_allowed("PUT"));
    assert!(!method_allowed(""));
    assert_eq!(Rejection::MethodNotAllowed.status_code(), 405);
}

#[test]
fn a_bad_body_is_a_bad_request() {
    assert_eq!(Rejection::MalformedBody.status_code(), 400);
    for error in [
        ValidationError::NonPositiveAmount,
        ValidationError::UnsupportedCurrency,
        ValidationError::UnsupportedCountry,
        ValidationError::EmptyCardBin,
        ValidationError::EmptyCardLast4,
        ValidationError::EmptyCustomerId,
    ] {
        assert_eq!(Rejection::Invalid(error).status_code(), 400);
    }
}

#[test]
fn authorize_routes_a_valid_request() {
    let request = brazil_request();
    let result = authorize(&request, "2025-01-15T08:30:00Z".to_string()).unwrap();
    assert!(result.transaction_id.starts_with("txn_"));
    assert_eq!(result.transaction_id.len(), 20);
    assert!(result.transaction_id[4..].chars().all(|c| "0123456789abcdef".contains(c)));
    assert!(!result.attempts.is_empty());
    let counted = result
        .attempts
        .iter()
        .filter(|a| a.decline_reason != Some(DeclineReason::PspUnavailable))
        .count();
    assert!(counted <= MAX_ATTEMPTS);
    assert_eq!(result.total_attempts, counted);
    // The first provider asked is the one with the highest success rate.
    assert_eq!(result.attempts[0].psp_name, "Cielo");
}

#[test]
fn authorize_is_the_routing_of_the_built_transaction() {
    let mut request = brazil_request();
    request.routing_strategy = Some(RoutingStrategy::OptimizeForCost);
    let answer = authorize(&request, "2025-01-15T08:30:00Z".to_string()).unwrap();
    let transaction = build_transaction(
        &request,
        Currency::BRL,
        Country::Brazil,
        "2025-01-15T08:30:00Z".to_string(),
    );
    assert_eq!(transaction.id, generate_transaction_id(&request));
    assert_eq!(transaction.amount_cents, 15000);
    assert_eq!(transaction.card_bin, "411111");
    assert_eq!(transaction.card_last4, "1234");
    assert_eq!(transaction.customer_id, "cust_001");
    assert_eq!(transaction.timestamp, "2025-01-15T08:30:00Z");
    let engine = RoutingEngine::new(PspSimulator::new());
    let routed = engine.route(&transaction, &RoutingStrategy::OptimizeForCost);
    assert_eq!(answer.transaction_id, routed.transaction_id);
    assert_eq!(answer.approved, routed.approved);
    assert_eq!(answer.final_psp, routed.final_psp);
    assert_eq!(answer.total_latency_ms, routed.total_latency_ms);
    assert_eq!(answer.attempts[0].psp_name, "Stone");
}

#[test]
fn authorize_turns_away_an_unsupported_currency() {
    let mut request = brazil_request();
    request.currency = "USD".to_string();
    let answer = authorize(&request, "2025-01-15T08:30:00Z".to_string());
    assert_eq!(answer.err(), Some(ValidationError::UnsupportedCurrency));
    assert_eq!(Rejection::Invalid(ValidationError::UnsupportedCurrency).status_code(), 400);
}

#[test]
fn validation_names_the_first_fault() {
    assert_eq!(validate_request(&brazil_request()), Ok((Currency::BRL, Country::Brazil)));
    let mut request = brazil_request();
    request.customer_id = String::new();
    assert_eq!(validate_request(&request), Err(ValidationError::EmptyCustomerId));
    request.card_last4 = String::new();
    assert_eq!(validate_request(&request), Err(ValidationError::EmptyCardLast4));
    request.card_bin = String::new();
    assert_eq!(validate_request(&request), Err(ValidationError::EmptyCardBin));
    request.country = "Peru".to_string();
    assert_eq!(validate_request(&request), Err(ValidationError::UnsupportedCountry));
    request.currency = "brl".to_string();
    assert_eq!(validate_request(&request), Err(ValidationError::UnsupportedCurrency));
    request.amount_cents = 0;
    assert_eq!(validate_request(&request), Err(ValidationError::NonPositiveAmount));
    request.amount_cents = -1;
    assert_eq!(validate_request(&request), Err(ValidationError::NonPositiveAmount));
}

#[test]
fn validation_does_not_pair_currency_and_country() {
    let mut request = brazil_request();
    request.country = "Mexico".to_string();
    assert_eq!(validate_request(&request), Ok((Currency::BRL, Country::Mexico)));
    request.amount_cents = 1;
    request.currency = "COP".to_string();
    assert_eq!(validate_request(&request), Ok((Currency::COP, Country::Mexico)));
}

#[test]
fn transaction_ids_depend_on_card_customer_and_amount() {
    let request = brazil_request();
    let id = generate_transaction_id(&request);
    assert_eq!(id, generate_transaction_id(&request.clone()));
    assert!(id.starts_with("txn_"));
    assert_eq!(id.len(), 20);
    let mut other = brazil_request();
    other.amount_bits = 150.01f64.to_bits();
    assert_ne!(id, generate_transaction_id(&other));
    let mut other = brazil_request();
    other.customer_id = "cust_002".to_string();
    assert_ne!(id, generate_transaction_id(&other));
    let mut other = brazil_request();
    other.card_last4 = "1235".to_string();
    assert_ne!(id, generate_transaction_id(&other));
    // Currency, country and strategy do not enter the identifier.
    let mut other = brazil_request();
    other.currency = "MXN".to_string();
    other.country = "Mexico".to_string();
    other.routing_strategy = Some(RoutingStrategy::Balanced);
    other.amount_cents = 1;
    assert_eq!(id, generate_transaction_id(&other));
}

#[test]
fn currencies_countries_and_strategies_are_read_exactly() {
    assert_eq!(parse_currency("BRL"), Some(Currency::BRL));
    assert_eq!(parse_currency("MXN"), Some(Currency::MXN));
    assert_eq!(parse_currency("COP"), Some(Currency::COP));
    assert_eq!(parse_currency("USD"), None);
    assert_eq!(parse_currency("BRL "), None);
    assert_eq!(parse_currency(""), None);
    assert_eq!(parse_country("Brazil"), Some(Country::Brazil));
    assert_eq!(parse_country("Mexico"), Some(Country::Mexico));
    assert_eq!(parse_country("Colombia"), Some(Country::Colombia));
    assert_eq!(parse_country("brazil"), None);
    assert_eq!(parse_country("Argentina"), None);
    assert_eq!(parse_strategy("OptimizeForApprovals"), Some(RoutingStrategy::OptimizeForApprovals));
    assert_eq!(parse_strategy("OptimizeForCost"), Some(RoutingStrategy::OptimizeForCost));
    assert_eq!(parse_strategy("Balanced"), Some(RoutingStrategy::Balanced));
    assert_eq!(parse_strategy("balanced"), None);
    for currency in [Currency::BRL, Currency::MXN, Currency::COP] {
        assert_eq!(parse_currency(currency.code()), Some(currency));
    }
    for country in [Country::Brazil, Country::Mexico, Country::Colombia] {
        assert_eq!(parse_country(country.name()), Some(country));
        assert_eq!(parse_currency(country.currency().code()), Some(country.currency()));
    }
    assert_eq!(Country::Brazil.currency(), Currency::BRL);
    assert_eq!(Country::Mexico.currency(), Currency::MXN);
    assert_eq!(Country::Colombia.currency(), Currency::COP);
}

#[test]
fn report_requests_take_their_defaults() {
    assert_eq!(DEFAULT_TRANSACTION_COUNT, 200);
    assert_eq!(resolve_report_request(None), (200, RoutingStrategy::OptimizeForApprovals));
    let empty = ReportRequest { transaction_count: None, routing_strategy: None };
    assert_eq!(resolve_report_request(Some(empty)), (200, RoutingStrategy::OptimizeForApprovals));
    let full = ReportRequest {
        transaction_count: Some(500),
        routing_strategy: Some(RoutingStrategy::Balanced),
    };
    assert_eq!(resolve_report_request(Some(full)), (500, RoutingStrategy::Balanced));
    let count_only = ReportRequest { transaction_count: Some(0), routing_strategy: None };
    assert_eq!(resolve_report_request(Some(count_only)), (0, RoutingStrategy::OptimizeForApprovals));
}

#[test]
fn default_report_covers_two_hundred_transactions() {
    let report = run_report(None).unwrap();
    assert_eq!(report.total_transactions, 200);
    assert_eq!(report.no_retry.approved + report.no_retry.declined, 200);
    assert_eq!(report.smart_retry.approved + report.smart_retry.declined, 200);
    assert!(report.no_retry.avg_latency_hundredths > 0);
    assert!(report.smart_retry.avg_latency_hundredths > 0);
    let countries: Vec<Country> = report.by_country.iter().map(|e| e.country).collect();
    assert_eq!(countries, vec![Country::Brazil, Country::Mexico, Country::Colombia]);
    let totals: Vec<usize> =
        report.by_country.iter().map(|e| e.metrics.total_transactions).collect();
    assert_eq!(totals, vec![67, 67, 66]);
    assert!(report.by_psp.len() <= 9);
}

#[test]
fn report_follows_the_request() {
    let request = ReportRequest {
        transaction_count: Some(30),
        routing_strategy: Some(RoutingStrategy::OptimizeForCost),
    };
    let report = run_report(Some(request)).unwrap();
    assert_eq!(report.total_transactions, 30);
    // The cheapest provider of each country is asked first, so it is seen first.
    assert_eq!(report.by_psp[0].psp_name, "Stone");
    assert_eq!(report.by_psp[1].psp_name, "SR Pago");
    let empty = run_report(Some(ReportRequest {
        transaction_count: Some(0),
        routing_strategy: None,
    }))
    .unwrap();
    assert_eq!(empty.total_transactions, 0);
    assert!(empty.by_country.is_empty());
}

#[test]
fn a_report_too_large_for_its_counters_is_not_made() {
    let request = ReportRequest { transaction_count: Some(usize::MAX), routing_strategy: None };
    assert!(run_report(Some(request)).is_none());
    let request =
        ReportRequest { transaction_count: Some(usize::MAX / 3 + 1), routing_strategy: None };
    assert!(run_report(Some(request)).is_none());
}

#[test]
fn faults_are_worded_for_the_sender() {
    let mut request = brazil_request();
    request.currency = "USD".to_string();
    request.country = "Peru".to_string();
    assert_eq!(
        ValidationError::NonPositiveAmount.message(&request),
        "amount must be greater than 0"
    );
    assert_eq!(
        ValidationError::UnsupportedCurrency.message(&request),
        "Invalid currency 'USD'. Supported: BRL, MXN, COP"
    );
    assert_eq!(
        ValidationError::UnsupportedCountry.message(&request),
        "Invalid country 'Peru'. Supported: Brazil, Mexico, Colombia"
    );
    assert_eq!(ValidationError::EmptyCardBin.message(&request), "card_bin must not be empty");
    assert_eq!(ValidationError::EmptyCardLast4.message(&request), "card_last4 must not be empty");
    assert_eq!(
        ValidationError::EmptyCustomerId.message(&request),
        "customer_id must not be empty"
    );
}
