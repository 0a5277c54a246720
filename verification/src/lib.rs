//! ISO 4217 currency registry.
//!
//! A tab-separated source table describing every currency is parsed into
//! validated records and compiled into an immutable registry that answers
//! lookup questions: code to currency, numeric code to currency, currency to
//! name, symbol, subunit exponent, issuing territories, classification flags
//! and supersession, and territory to currencies.

use vstd::prelude::*;

pub mod country;
pub mod data;
pub mod laws;
pub mod lookup;
pub mod parse;
pub mod record;
pub mod registry;
pub mod sort;
pub mod text;

pub use data::iso4217_table;
pub use record::{BuildError, CurrencyRecord, ParseCurrencyError};
pub use registry::{Currency, Flag, Registry};

verus! {

/// The display symbols for a currency: the main symbol and, where one
/// exists, the symbol of its fractional subunit.
#[derive(Clone, Debug, PartialEq, Eq)]
pub struct CurrencySymbol {
    pub symbol: String,
    pub subunit_symbol: Option<String>,
}

impl CurrencySymbol {
    /// Packs a symbol and an optional subunit symbol into owned form.
    pub fn new(symbol: &str, subunit_symbol: Option<&str>) -> (r: CurrencySymbol)
        ensures
            r.symbol@ == symbol@,
            match subunit_symbol {
                Some(s) => r.subunit_symbol matches Some(t) && t@ == s@,
                None => r.subunit_symbol is None,
            },
    {
        CurrencySymbol {
            symbol: symbol.to_owned(),
            subunit_symbol: match subunit_symbol {
                Some(s) => Some(s.to_owned()),
                None => None,
            },
        }
    }
}

} // verus!
