//! Countries, currencies and the transaction to be authorized.

use crate::text::same_text;
use vstd::prelude::*;

verus! {

/// A currency the merchant accepts.
#[derive(Clone, Copy, Debug, PartialEq, Eq, Structural, Hash)]
pub enum Currency {
    BRL,
    MXN,
    COP,
}

/// A country the merchant operates in.
#[derive(Clone, Copy, Debug, PartialEq, Eq, Structural, Hash)]
pub enum Country {
    Brazil,
    Mexico,
    Colombia,
}

impl Currency {
    /// The three-letter code of the currency.
    pub open spec fn spec_code(self) -> Seq<char> {
        match self {
            Currency::BRL => "BRL"@,
            Currency::MXN => "MXN"@,
            Currency::COP => "COP"@,
        }
    }

    /// The three-letter code of the currency.
    pub fn code(&self) -> (s: &'static str)
        ensures
            s@ == self.spec_code(),
    {
        match self {
            Currency::BRL => "BRL",
            Currency::MXN => "MXN",
            Currency::COP => "COP",
        }
    }
}

impl Country {
    /// The English name of the country.
    pub open spec fn spec_name(self) -> Seq<char> {
        match self {
            Country::Brazil => "Brazil"@,
            Country::Mexico => "Mexico"@,
            Country::Colombia => "Colombia"@,
        }
    }

    /// The English name of the country.
    pub fn name(&self) -> (s: &'static str)
        ensures
            s@ == self.spec_name(),
    {
        match self {
            Country::Brazil => "Brazil",
            Country::Mexico => "Mexico",
            Country::Colombia => "Colombia",
        }
    }

    /// The currency that is paid in the country.
    pub open spec fn spec_currency(self) -> Currency {
        match self {
            Country::Brazil => Currency::BRL,
            Country::Mexico => Currency::MXN,
            Country::Colombia => Currency::COP,
        }
    }

    /// The currency that is paid in the country.
    pub fn currency(&self) -> (c: Currency)
        ensures
            c == self.spec_currency(),
    {
        match self {
            Country::Brazil => Currency::BRL,
            Country::Mexico => Currency::MXN,
            Country::Colombia => Currency::COP,
        }
    }

    /// Position of the country in the fixed order Brazil, Mexico, Colombia.
    pub open spec fn spec_index(self) -> int {
        match self {
            Country::Brazil => 0,
            Country::Mexico => 1,
            Country::Colombia => 2,
        }
    }
}

/// The currency that a text names, if any.
pub open spec fn spec_parse_currency(s: Seq<char>) -> Option<Currency> {
    if s == "BRL"@ {
        Some(Currency::BRL)
    } else if s == "MXN"@ {
        Some(Currency::MXN)
    } else if s == "COP"@ {
        Some(Currency::COP)
    } else {
        None
    }
}

/// The country that a text names, if any.
pub open spec fn spec_parse_country(s: Seq<char>) -> Option<Country> {
    if s == "Brazil"@ {
        Some(Country::Brazil)
    } else if s == "Mexico"@ {
        Some(Country::Mexico)
    } else if s == "Colombia"@ {
        Some(Country::Colombia)
    } else {
        None
    }
}

/// Reads a currency code. Only `BRL`, `MXN` and `COP` are accepted, in
/// exactly this spelling.
pub fn parse_currency(s: &str) -> (parsed: Option<Currency>)
    ensures
        parsed == spec_parse_currency(s@),
{
    if same_text(s, "BRL") {
        Some(Currency::BRL)
    } else if same_text(s, "MXN") {
        Some(Currency::MXN)
    } else if same_text(s, "COP") {
        Some(Currency::COP)
    } else {
        None
    }
}

/// Reads a country name. Only `Brazil`, `Mexico` and `Colombia` are
/// accepted, in exactly this spelling.
pub fn parse_country(s: &str) -> (parsed: Option<Country>)
    ensures
        parsed == spec_parse_country(s@),
{
    if same_text(s, "Brazil") {
        Some(Country::Brazil)
    } else if same_text(s, "Mexico") {
        Some(Country::Mexico)
    } else if same_text(s, "Colombia") {
        Some(Country::Colombia)
    } else {
        None
    }
}

/// Reading the code of a currency gives the currency back.
pub proof fn lemma_currency_code_round_trip(c: Currency)
    ensures
        spec_parse_currency(c.spec_code()) == Some(c),
{
    reveal_strlit("BRL");
    reveal_strlit("MXN");
    reveal_strlit("COP");
    assert("BRL"@[0] == 'B');
    assert("MXN"@[0] == 'M');
    assert("COP"@[0] == 'C');
}

/// Reading the name of a country gives the country back.
pub proof fn lemma_country_name_round_trip(c: Country)
    ensures
        spec_parse_country(c.spec_name()) == Some(c),
{
    reveal_strlit("Brazil");
    reveal_strlit("Mexico");
    reveal_strlit("Colombia");
    assert("Brazil"@[0] == 'B');
    assert("Mexico"@[0] == 'M');
    assert("Colombia"@[0] == 'C');
}

/// A card payment to be authorized.
#[derive(Debug)]
pub struct Transaction {
    /// Unique identifier of the transaction.
    pub id: String,
    /// Amount in hundredths of the currency unit.
    pub amount_cents: u64,
    /// Currency of the amount.
    pub currency: Currency,
    /// Country the payment comes from.
    pub country: Country,
    /// First six digits of the card.
    pub card_bin: String,
    /// Last four digits of the card.
    pub card_last4: String,
    /// Identifier of the paying customer.
    pub customer_id: String,
    /// Time of the payment, ISO 8601 in UTC.
    pub timestamp: String,
}

/// The mathematical value of a [`Transaction`].
pub ghost struct TransactionView {
    pub id: Seq<char>,
    pub amount_cents: u64,
    pub currency: Currency,
    pub country: Country,
    pub card_bin: Seq<char>,
    pub card_last4: Seq<char>,
    pub customer_id: Seq<char>,
    pub timestamp: Seq<char>,
}

impl View for Transaction {
    type V = TransactionView;

    open spec fn view(&self) -> TransactionView {
        TransactionView {
            id: self.id@,
            amount_cents: self.amount_cents,
            currency: self.currency,
            country: self.country,
            card_bin: self.card_bin@,
            card_last4: self.card_last4@,
            customer_id: self.customer_id@,
            timestamp: self.timestamp@,
        }
    }
}

impl TransactionView {
    /// What the data model asks of a transaction: no text field is empty,
    /// the amount is positive, and the currency is the country's own.
    pub open spec fn valid(self) -> bool {
        &&& self.id.len() > 0
        &&& self.card_bin.len() > 0
        &&& self.card_last4.len() > 0
        &&& self.customer_id.len() > 0
        &&& self.timestamp.len() > 0
        &&& self.amount_cents > 0
        &&& self.currency == self.country.spec_currency()
    }
}

impl DeepView for Transaction {
    type V = TransactionView;

    open spec fn deep_view(&self) -> TransactionView {
        self@
    }
}

impl Clone for Transaction {
    fn clone(&self) -> (copy: Self)
        ensures
            copy == *self,
    {
        Transaction {
            id: self.id.clone(),
            amount_cents: self.amount_cents,
            currency: self.currency,
            country: self.country,
            card_bin: self.card_bin.clone(),
            card_last4: self.card_last4.clone(),
            customer_id: self.customer_id.clone(),
            timestamp: self.timestamp.clone(),
        }
    }
}

} // verus!
