//! The validated intermediate form of one table row, its mathematical model,
//! and the generation-time error values.

use vstd::prelude::*;

verus! {

/// An uppercase ASCII letter.
pub open spec fn is_upper(c: char) -> bool {
    65 <= c as u32 <= 90
}

/// A well-formed currency code: exactly three uppercase ASCII letters.
pub open spec fn is_code(s: Seq<char>) -> bool {
    s.len() == 3 && is_upper(s[0]) && is_upper(s[1]) && is_upper(s[2])
}

/// Mathematical model of one validated table row.
#[verifier::ext_equal]
pub struct RecordModel {
    /// Three uppercase ASCII letters; the primary key.
    pub code: Seq<char>,
    /// Numeric identifier in 0..=999.
    pub numeric: u16,
    /// Non-empty English name.
    pub name: Seq<char>,
    /// Display symbol; the generic placeholder when the table omits one.
    pub symbol: Seq<char>,
    /// Display symbol of the fractional subunit, where one exists.
    pub subunit_symbol: Option<Seq<char>>,
    /// Decimal digits of the subunit; absent for currencies with no subunit.
    pub exponent: Option<u8>,
    /// Numeric identifiers of the issuing territories, in table order.
    pub used_by: Option<Seq<u16>>,
    /// The currency is an investment-fund unit.
    pub is_fund: bool,
    /// The currency is a non-circulating special-purpose unit.
    pub is_special: bool,
    /// Code of the currency that replaces this one, where one does.
    pub superseded_by: Option<Seq<char>>,
}

/// One validated table row in executable form.
pub struct CurrencyRecord {
    pub code: String,
    pub numeric: u16,
    pub name: String,
    pub symbol: String,
    pub subunit_symbol: Option<String>,
    pub exponent: Option<u8>,
    pub used_by: Option<Vec<u16>>,
    pub is_fund: bool,
    pub is_special: bool,
    pub superseded_by: Option<String>,
}

impl View for CurrencyRecord {
    type V = RecordModel;

    open spec fn view(&self) -> RecordModel {
        RecordModel {
            code: self.code@,
            numeric: self.numeric,
            name: self.name@,
            symbol: self.symbol@,
            subunit_symbol: match self.subunit_symbol {
                Some(s) => Some(s@),
                None => None,
            },
            exponent: self.exponent,
            used_by: match self.used_by {
                Some(l) => Some(l@),
                None => None,
            },
            is_fund: self.is_fund,
            is_special: self.is_special,
            superseded_by: match self.superseded_by {
                Some(s) => Some(s@),
                None => None,
            },
        }
    }
}

impl DeepView for CurrencyRecord {
    type V = RecordModel;

    open spec fn deep_view(&self) -> RecordModel {
        self.view()
    }
}

/// The bounds the loader guarantees of every record it hands the generator:
/// a well-formed code, the numeric identifier in range, a non-empty name, a
/// non-empty symbol (the loader fills in the generic sign), an exponent whose
/// power of ten fits the subunit-fraction type, and territory identifiers
/// inside the registry's index range.
pub open spec fn record_ok(m: RecordModel) -> bool {
    &&& is_code(m.code)
    &&& m.numeric <= 999
    &&& m.name.len() > 0
    &&& m.symbol.len() > 0
    &&& (m.exponent matches Some(e) ==> e <= 9)
    &&& (m.used_by matches Some(l) ==> forall|i: int| 0 <= i < l.len() ==> #[trigger] l[i]
        < 1000)
}

pub open spec fn records_ok(rs: Seq<RecordModel>) -> bool {
    forall|i: int| 0 <= i < rs.len() ==> record_ok(#[trigger] rs[i])
}

/// The flag categories decomposed from one flags field.
#[verifier::ext_equal]
pub struct FlagSet {
    pub special: bool,
    pub fund: bool,
    pub superseded: Option<Seq<char>>,
}

/// A generation-time fatal condition: a malformed row or a structurally
/// inconsistent table. `line` is the 1-based line of the source table;
/// `index` is the 0-based row of the effective (filtered) record set.
#[derive(Clone, Debug, PartialEq, Eq, Structural)]
pub enum BuildError {
    /// A row does not have exactly 8 tab-separated fields.
    WrongFieldCount { line: usize },
    /// The code field is not three uppercase ASCII letters.
    InvalidCode { line: usize },
    /// The numeric field is not a number in 0..=999.
    InvalidNumeric { line: usize },
    /// The name field is empty.
    EmptyName { line: usize },
    /// A used-by entry is not a known territory.
    UnknownTerritory { line: usize },
    /// The exponent field is present but not a number in 0..=9.
    InvalidExponent { line: usize },
    /// A flags token opens a supersession without closing it.
    MalformedFlags { line: usize },
    /// Two records share a code.
    DuplicateCode { index: usize },
    /// Two records share a numeric identifier.
    DuplicateNumeric { index: usize },
    /// A supersession target names no record of the table.
    UnknownSupersession { index: usize },
    /// A record names itself as its supersession target.
    SelfSupersession { index: usize },
    /// The effective table has no records.
    EmptyTable,
}

/// The runtime error of the string-parsing entry point: the argument is not
/// a currency code of the registry.
#[derive(Clone, Debug, PartialEq, Eq, Structural)]
pub struct ParseCurrencyError;

impl ParseCurrencyError {
    /// The human-readable description of this error.
    pub fn message(&self) -> (r: String)
        ensures
            r@ == "not a valid ISO 4217 currency code"@,
    {
        "not a valid ISO 4217 currency code".to_owned()
    }
}

} // verus!
