//! What the three endpoints decide: which requests are accepted, what is
//! routed or reported for them, and with which status a request is turned
//! away. Reading requests and writing responses is left to the host.

use crate::data::{generate_test_data, test_data};
use crate::engine::{route_model, RoutingEngine};
use crate::models::report::{PerformanceReport, ReportRequest};
use crate::models::routing::{
    AuthorizationRequest, AuthorizationRequestView, RoutingResult, RoutingStrategy,
};
use crate::models::transaction::{
    parse_country, parse_currency, spec_parse_country, spec_parse_currency, Country, Currency,
    Transaction, TransactionView,
};
use crate::report::{generate_report, is_report_of};
use crate::simulator::seeds::{hash_texts_and_number, identity_seed};
use crate::simulator::PspSimulator;
use crate::text::{fixed_digits, push_fixed, same_text};
use vstd::prelude::*;

verus! {

/// Number of transactions of a report that does not say how many.
pub const DEFAULT_TRANSACTION_COUNT: usize = 200;

/// Status of a request that was served.
pub const STATUS_OK: u16 = 200;

/// Status of a request whose body could not be used.
pub const STATUS_BAD_REQUEST: u16 = 400;

/// Status of a request made with a method the endpoint does not serve.
pub const STATUS_METHOD_NOT_ALLOWED: u16 = 405;

/// Why an authorization request is not valid.
#[derive(Clone, Copy, Debug, PartialEq, Eq, Structural)]
pub enum ValidationError {
    /// The amount is zero or negative.
    NonPositiveAmount,
    /// The currency is none of BRL, MXN, COP.
    UnsupportedCurrency,
    /// The country is none of Brazil, Mexico, Colombia.
    UnsupportedCountry,
    /// The card's first digits are missing.
    EmptyCardBin,
    /// The card's last digits are missing.
    EmptyCardLast4,
    /// The customer identifier is missing.
    EmptyCustomerId,
}

/// Why a request is turned away.
#[derive(Clone, Copy, Debug, PartialEq, Eq, Structural)]
pub enum Rejection {
    /// The endpoint serves only POST.
    MethodNotAllowed,
    /// The body is not the JSON the endpoint expects.
    MalformedBody,
    /// The body was read and is not valid.
    Invalid(ValidationError),
}

impl Rejection {
    /// The status a rejection is answered with.
    pub open spec fn spec_status_code(self) -> u16 {
        match self {
            Rejection::MethodNotAllowed => STATUS_METHOD_NOT_ALLOWED,
            Rejection::MalformedBody => STATUS_BAD_REQUEST,
            Rejection::Invalid(_) => STATUS_BAD_REQUEST,
        }
    }

    /// The status a rejection is answered with: 405 for a wrong method,
    /// 400 for everything wrong with the body.
    pub fn status_code(&self) -> (status: u16)
        ensures
            status == self.spec_status_code(),
    {
        match self {
            Rejection::MethodNotAllowed => STATUS_METHOD_NOT_ALLOWED,
            Rejection::MalformedBody => STATUS_BAD_REQUEST,
            Rejection::Invalid(_) => STATUS_BAD_REQUEST,
        }
    }
}

/// True for the one method that the authorize and report endpoints serve.
pub fn method_allowed(method: &str) -> (allowed: bool)
    ensures
        allowed == (method@ == "POST"@),
{
    same_text(method, "POST")
}

/// What the health endpoint answers.
#[derive(Clone, Copy, Debug)]
pub struct HealthStatus {
    pub status: &'static str,
    pub version: &'static str,
}

/// The answer of the health endpoint: status `ok`, and the version of the
/// library.
pub fn health() -> (answer: HealthStatus)
    ensures
        answer.status@ == "ok"@,
        answer.version@ == "0.1.0"@,
        answer.version@.len() > 0,
{
    HealthStatus { status: "ok", version: crate::version() }
}

/// The first thing wrong with a request, if anything is: the amount, the
/// currency, the country, and the three text fields are looked at in this
/// order.
pub open spec fn validation_of(request: AuthorizationRequestView) -> Option<ValidationError> {
    if request.amount_cents <= 0 {
        Some(ValidationError::NonPositiveAmount)
    } else if spec_parse_currency(request.currency) is None {
        Some(ValidationError::UnsupportedCurrency)
    } else if spec_parse_country(request.country) is None {
        Some(ValidationError::UnsupportedCountry)
    } else if request.card_bin.len() == 0 {
        Some(ValidationError::EmptyCardBin)
    } else if request.card_last4.len() == 0 {
        Some(ValidationError::EmptyCardLast4)
    } else if request.customer_id.len() == 0 {
        Some(ValidationError::EmptyCustomerId)
    } else {
        None
    }
}

/// What is told about a request that is not valid. An unsupported currency
/// or country is quoted, and what is supported is listed.
pub open spec fn message_of(error: ValidationError, request: AuthorizationRequestView) -> Seq<
    char,
> {
    match error {
        ValidationError::NonPositiveAmount => "amount must be greater than 0"@,
        ValidationError::UnsupportedCurrency => "Invalid currency '"@ + request.currency
            + "'. Supported: BRL, MXN, COP"@,
        ValidationError::UnsupportedCountry => "Invalid country '"@ + request.country
            + "'. Supported: Brazil, Mexico, Colombia"@,
        ValidationError::EmptyCardBin => "card_bin must not be empty"@,
        ValidationError::EmptyCardLast4 => "card_last4 must not be empty"@,
        ValidationError::EmptyCustomerId => "customer_id must not be empty"@,
    }
}

impl ValidationError {
    /// Words the fault for the one who sent the request.
    pub fn message(&self, request: &AuthorizationRequest) -> (text: String)
        ensures
            text@ == message_of(*self, request@),
    {
        match self {
            ValidationError::NonPositiveAmount => String::from_str(
                "amount must be greater than 0",
            ),
            ValidationError::UnsupportedCurrency => {
                let mut text = String::from_str("Invalid currency '");
                text.append(request.currency.as_str());
                text.append("'. Supported: BRL, MXN, COP");
                text
            },
            ValidationError::UnsupportedCountry => {
                let mut text = String::from_str("Invalid country '");
                text.append(request.country.as_str());
                text.append("'. Supported: Brazil, Mexico, Colombia");
                text
            },
            ValidationError::EmptyCardBin => String::from_str("card_bin must not be empty"),
            ValidationError::EmptyCardLast4 => String::from_str("card_last4 must not be empty"),
            ValidationError::EmptyCustomerId => String::from_str("customer_id must not be empty"),
        }
    }
}

/// Validates a request and reads its currency and country.
pub fn validate_request(request: &AuthorizationRequest) -> (checked: Result<
    (Currency, Country),
    ValidationError,
>)
    ensures
        match checked {
            Ok((currency, country)) => {
                &&& validation_of(request@) is None
                &&& spec_parse_currency(request@.currency) == Some(currency)
                &&& spec_parse_country(request@.country) == Some(country)
            },
            Err(error) => validation_of(request@) == Some(error),
        },
{
    if request.amount_cents <= 0 {
        return Err(ValidationError::NonPositiveAmount);
    }
    let currency = match parse_currency(request.currency.as_str()) {
        Some(currency) => currency,
        None => {
            return Err(ValidationError::UnsupportedCurrency);
        },
    };
    let country = match parse_country(request.country.as_str()) {
        Some(country) => country,
        None => {
            return Err(ValidationError::UnsupportedCountry);
        },
    };
    if request.card_bin.as_str().is_empty() {
        return Err(ValidationError::EmptyCardBin);
    }
    if request.card_last4.as_str().is_empty() {
        return Err(ValidationError::EmptyCardLast4);
    }
    if request.customer_id.as_str().is_empty() {
        return Err(ValidationError::EmptyCustomerId);
    }
    Ok((currency, country))
}

/// The identifier of the transaction of a request: `txn_` and the sixteen
/// hexadecimal digits of the hash of card, customer and amount.
pub open spec fn transaction_id_of(request: AuthorizationRequestView) -> Seq<char> {
    "txn_"@ + fixed_digits(
        identity_seed(
            request.card_bin,
            request.card_last4,
            request.customer_id,
            request.amount_bits,
        ) as nat,
        16,
        16,
    )
}

/// Derives the identifier of the transaction of a request. Equal requests
/// get equal identifiers.
pub fn generate_transaction_id(request: &AuthorizationRequest) -> (id: String)
    ensures
        id@ == transaction_id_of(request@),
{
    let hash = hash_texts_and_number(
        request.card_bin.as_str(),
        request.card_last4.as_str(),
        request.customer_id.as_str(),
        request.amount_bits,
    );
    let mut id = String::from_str("txn_");
    push_fixed(&mut id, hash, 16, 16);
    id
}

/// The transaction of a valid request, stamped with a time.
pub open spec fn transaction_of_request(
    request: AuthorizationRequestView,
    currency: Currency,
    country: Country,
    timestamp: Seq<char>,
) -> TransactionView {
    TransactionView {
        id: transaction_id_of(request),
        amount_cents: request.amount_cents as u64,
        currency,
        country,
        card_bin: request.card_bin,
        card_last4: request.card_last4,
        customer_id: request.customer_id,
        timestamp,
    }
}

/// The strategy of a request: the one asked for, or the default.
pub open spec fn strategy_of(asked: Option<RoutingStrategy>) -> RoutingStrategy {
    match asked {
        Some(strategy) => strategy,
        None => RoutingStrategy::OptimizeForApprovals,
    }
}

/// Builds the transaction of a request whose currency and country are
/// read.
pub fn build_transaction(
    request: &AuthorizationRequest,
    currency: Currency,
    country: Country,
    timestamp: String,
) -> (transaction: Transaction)
    requires
        request.amount_cents > 0,
    ensures
        transaction@ == transaction_of_request(request@, currency, country, timestamp@),
{
    Transaction {
        id: generate_transaction_id(request),
        amount_cents: request.amount_cents as u64,
        currency,
        country,
        card_bin: request.card_bin.clone(),
        card_last4: request.card_last4.clone(),
        customer_id: request.customer_id.clone(),
        timestamp,
    }
}

/// Serves an authorization request: a request that is not valid is turned
/// away with the first thing wrong with it, and a valid one is routed with
/// retry under the strategy it asks for.
pub fn authorize(request: &AuthorizationRequest, timestamp: String) -> (answer: Result<
    RoutingResult,
    ValidationError,
>)
    ensures
        match answer {
            Ok(result) => {
                &&& validation_of(request@) is None
                &&& result@ == route_model(
                    transaction_of_request(
                        request@,
                        spec_parse_currency(request@.currency)->0,
                        spec_parse_country(request@.country)->0,
                        timestamp@,
                    ),
                    strategy_of(request@.routing_strategy),
                )
                &&& result@.transaction_id == transaction_id_of(request@)
            },
            Err(error) => validation_of(request@) == Some(error),
        },
{
    let (currency, country) = match validate_request(request) {
        Ok(read) => read,
        Err(error) => {
            return Err(error);
        },
    };
    let transaction = build_transaction(request, currency, country, timestamp);
    let strategy = match request.routing_strategy {
        Some(strategy) => strategy,
        None => RoutingStrategy::OptimizeForApprovals,
    };
    let engine = RoutingEngine::new(PspSimulator::new());
    Ok(engine.route(&transaction, &strategy))
}

/// The number of transactions a report request asks for.
pub open spec fn count_of(request: Option<ReportRequest>) -> usize {
    match request {
        Some(ReportRequest { transaction_count: Some(count), .. }) => count,
        _ => DEFAULT_TRANSACTION_COUNT,
    }
}

/// The strategy a report request asks for.
pub open spec fn report_strategy_of(request: Option<ReportRequest>) -> RoutingStrategy {
    match request {
        Some(ReportRequest { routing_strategy: Some(strategy), .. }) => strategy,
        _ => RoutingStrategy::OptimizeForApprovals,
    }
}

/// Fills in what a report request leaves out: 200 transactions, and the
/// strategy that optimizes for approvals. No request at all is an empty
/// one.
pub fn resolve_report_request(request: Option<ReportRequest>) -> (plan: (usize, RoutingStrategy))
    ensures
        plan.0 == count_of(request),
        plan.1 == report_strategy_of(request),
{
    match request {
        Some(asked) => (
            match asked.transaction_count {
                Some(count) => count,
                None => DEFAULT_TRANSACTION_COUNT,
            },
            match asked.routing_strategy {
                Some(strategy) => strategy,
                None => RoutingStrategy::OptimizeForApprovals,
            },
        ),
        None => (DEFAULT_TRANSACTION_COUNT, RoutingStrategy::OptimizeForApprovals),
    }
}

/// Serves a report request: generates the batch asked for and reports on
/// it. Nothing is reported where three attempts for each transaction would
/// not fit the counters.
pub fn run_report(request: Option<ReportRequest>) -> (answer: Option<PerformanceReport>)
    ensures
        match answer {
            Some(report) => {
                &&& 3 * count_of(request) <= usize::MAX
                &&& is_report_of(
                    report@,
                    test_data(count_of(request) as nat),
                    report_strategy_of(request),
                )
            },
            None => 3 * count_of(request) > usize::MAX,
        },
{
    let (count, strategy) = resolve_report_request(request);
    if count > usize::MAX / 3 {
        return None;
    }
    let transactions = generate_test_data(count);
    let engine = RoutingEngine::new(PspSimulator::new());
    Some(generate_report(&transactions, &engine, &strategy))
}

} // verus!
