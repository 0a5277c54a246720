//! The table loader and the generator on hand-written tables: error cases,
//! defaults, the row filter, and forward compatibility of flag tokens.

use iso_currency::{BuildError, Registry};

const HEADER: &str = "CODE\tNUMERIC\tNAME\tUSED_BY\tSYMBOL\tSUBUNIT_SYMBOL\tEXPONENT\tFLAGS";

fn table(rows: &[&str]) -> String {
    let mut s = String::from(HEADER);
    for r in rows {
        s.push('\n');
        s.push_str(r);
    }
    s
}

#[test]
fn builds_a_two_row_table() {
    let t = table(&[
        "EUR\t978\tEuro\tDE;FR\t€\tc\t2\t",
        "JPY\t392\tJapanese yen\tJP\t¥\t\t0\t",
    ]);
    let reg = Registry::from_table(&t, None).unwrap();
    assert_eq!(reg.len(), 2);
    let eur = reg.from_code("EUR").unwrap();
    assert_eq!(reg.numeric(eur), 978);
    assert_eq!(reg.exponent(reg.from_code("JPY").unwrap()), Some(0));
}

#[test]
fn wrong_field_count_is_fatal() {
    let t = table(&["EUR\t978\tEuro\t\t€\tc\t2"]);
    assert!(matches!(
        Registry::from_table(&t, None),
        Err(BuildError::WrongFieldCount { line: 2 })
    ));
}

#[test]
fn invalid_code_is_fatal() {
    let t = table(&["eur\t978\tEuro\t\t€\tc\t2\t"]);
    assert!(matches!(
        Registry::from_table(&t, None),
        Err(BuildError::InvalidCode { line: 2 })
    ));
}

#[test]
fn non_numeric_numeric_is_fatal() {
    let t = table(&["EUR\tabc\tEuro\t\t€\tc\t2\t"]);
    assert!(matches!(
        Registry::from_table(&t, None),
        Err(BuildError::InvalidNumeric { line: 2 })
    ));
}

#[test]
fn out_of_range_numeric_is_fatal() {
    let t = table(&["EUR\t1000\tEuro\t\t€\tc\t2\t"]);
    assert!(matches!(
        Registry::from_table(&t, None),
        Err(BuildError::InvalidNumeric { line: 2 })
    ));
}

#[test]
fn empty_name_is_fatal() {
    let t = table(&["EUR\t978\t\t\t€\tc\t2\t"]);
    assert!(matches!(
        Registry::from_table(&t, None),
        Err(BuildError::EmptyName { line: 2 })
    ));
}

#[test]
fn unknown_territory_is_fatal() {
    let t = table(&["EUR\t978\tEuro\tZZ\t€\tc\t2\t"]);
    assert!(matches!(
        Registry::from_table(&t, None),
        Err(BuildError::UnknownTerritory { line: 2 })
    ));
}

#[test]
fn empty_territory_token_is_fatal() {
    let t = table(&["EUR\t978\tEuro\tAD;\t€\tc\t2\t"]);
    assert!(matches!(
        Registry::from_table(&t, None),
        Err(BuildError::UnknownTerritory { line: 2 })
    ));
    let t = table(&["EUR\t978\tEuro\tAD;;AT\t€\tc\t2\t"]);
    assert!(matches!(
        Registry::from_table(&t, None),
        Err(BuildError::UnknownTerritory { line: 2 })
    ));
}

#[test]
fn bad_exponent_is_fatal() {
    let t = table(&["EUR\t978\tEuro\t\t€\tc\tx\t"]);
    assert!(matches!(
        Registry::from_table(&t, None),
        Err(BuildError::InvalidExponent { line: 2 })
    ));
    let t = table(&["EUR\t978\tEuro\t\t€\tc\t12\t"]);
    assert!(matches!(
        Registry::from_table(&t, None),
        Err(BuildError::InvalidExponent { line: 2 })
    ));
}

#[test]
fn unterminated_supersession_is_fatal() {
    let t = table(&["EUR\t978\tEuro\t\t€\tc\t2\tsuperseded(ABC"]);
    assert!(matches!(
        Registry::from_table(&t, None),
        Err(BuildError::MalformedFlags { line: 2 })
    ));
}

#[test]
fn error_names_the_offending_line() {
    let t = table(&[
        "EUR\t978\tEuro\t\t€\tc\t2\t",
        "JPY\t392\tJapanese yen\t\t¥\t\tx\t",
    ]);
    assert!(matches!(
        Registry::from_table(&t, None),
        Err(BuildError::InvalidExponent { line: 3 })
    ));
}

#[test]
fn unknown_flag_tokens_are_ignored() {
    let t = table(&["EUR\t978\tEuro\t\t€\tc\t2\tshiny,special"]);
    let reg = Registry::from_table(&t, None).unwrap();
    let eur = reg.from_code("EUR").unwrap();
    assert!(reg.is_special(eur));
    assert!(!reg.is_fund(eur));
    assert_eq!(reg.is_superseded(eur), None);
}

#[test]
fn duplicate_code_is_fatal() {
    let t = table(&[
        "EUR\t978\tEuro\t\t€\tc\t2\t",
        "EUR\t979\tEuro again\t\t€\tc\t2\t",
    ]);
    assert!(matches!(
        Registry::from_table(&t, None),
        Err(BuildError::DuplicateCode { index: 1 })
    ));
}

#[test]
fn duplicate_numeric_is_fatal() {
    let t = table(&[
        "EUR\t978\tEuro\t\t€\tc\t2\t",
        "EUX\t978\tOther euro\t\t€\tc\t2\t",
    ]);
    assert!(matches!(
        Registry::from_table(&t, None),
        Err(BuildError::DuplicateNumeric { index: 1 })
    ));
}

#[test]
fn dangling_supersession_is_fatal() {
    let t = table(&["EUR\t978\tEuro\t\t€\tc\t2\tsuperseded(ZZZ)"]);
    assert!(matches!(
        Registry::from_table(&t, None),
        Err(BuildError::UnknownSupersession { index: 0 })
    ));
}

#[test]
fn self_supersession_is_fatal() {
    let t = table(&["EUR\t978\tEuro\t\t€\tc\t2\tsuperseded(EUR)"]);
    assert!(matches!(
        Registry::from_table(&t, None),
        Err(BuildError::SelfSupersession { index: 0 })
    ));
}

#[test]
fn empty_table_is_fatal() {
    assert!(matches!(
        Registry::from_table(HEADER, None),
        Err(BuildError::EmptyTable)
    ));
}

#[test]
fn empty_subset_is_fatal() {
    let t = table(&["EUR\t978\tEuro\t\t€\tc\t2\t"]);
    let subset = vec!["JPY".to_string()];
    assert!(matches!(
        Registry::from_table(&t, Some(&subset)),
        Err(BuildError::EmptyTable)
    ));
}

#[test]
fn subset_build_keeps_only_selected_rows() {
    let subset = vec!["EUR".to_string(), "USD".to_string()];
    let reg = Registry::from_table(iso_currency::iso4217_table(), Some(&subset)).unwrap();
    assert_eq!(reg.len(), 2);
    assert!(reg.from_code("EUR").is_some());
    assert!(reg.from_code("USD").is_some());
    assert_eq!(reg.from_code("JPY"), None);
    let eur = reg.from_code("EUR").unwrap();
    assert_eq!(reg.numeric(eur), 978);
}

#[test]
fn supersession_can_point_forward() {
    let t = table(&[
        "AAA\t1\tFirst\t\t\t\t2\tsuperseded(BBB)",
        "BBB\t2\tSecond\t\t\t\t2\t",
    ]);
    let reg = Registry::from_table(&t, None).unwrap();
    let a = reg.from_code("AAA").unwrap();
    let b = reg.from_code("BBB").unwrap();
    assert_eq!(reg.is_superseded(a), Some(b));
    assert_eq!(reg.latest(a), b);
}

#[test]
fn missing_symbol_defaults_to_generic_sign() {
    let t = table(&["EUR\t978\tEuro\t\t\t\t2\t"]);
    let reg = Registry::from_table(&t, None).unwrap();
    let eur = reg.from_code("EUR").unwrap();
    assert_eq!(reg.symbol(eur).symbol, "¤");
    assert_eq!(reg.symbol(eur).subunit_symbol, None);
}

#[test]
fn used_by_is_sorted_by_territory_identifier() {
    // CH (756) comes before LI (438) in the row; the registry sorts by the
    // territory's numeric identifier.
    let t = table(&["CHF\t756\tSwiss franc\tCH;LI\tFr.\tRp.\t2\t"]);
    let reg = Registry::from_table(&t, None).unwrap();
    let chf = reg.from_code("CHF").unwrap();
    assert_eq!(reg.used_by(chf), vec![438, 756]);
}

#[test]
fn duplicate_territory_entries_are_kept_in_used_by() {
    let t = table(&["CHF\t756\tSwiss franc\tCH;CH;LI\tFr.\tRp.\t2\t"]);
    let reg = Registry::from_table(&t, None).unwrap();
    let chf = reg.from_code("CHF").unwrap();
    // used_by keeps the duplicate; from_country lists the currency once.
    assert_eq!(reg.used_by(chf), vec![438, 756, 756]);
    assert_eq!(reg.from_country(756), vec![chf]);
}

#[test]
fn primary_currency_takes_the_first_unflagged_in_table_order() {
    let t = table(&[
        "AAA\t1\tFirst\tBO\t\t\t2\tfund",
        "BBB\t2\tSecond\tBO\t\t\t2\t",
        "CCC\t3\tThird\tBO\t\t\t2\t",
    ]);
    let reg = Registry::from_table(&t, None).unwrap();
    assert_eq!(reg.primary_currency(68), reg.from_code("BBB"));
}

#[test]
fn primary_currency_is_partial() {
    // Every currency of the territory carries a flag, so there is no primary
    // circulating currency.
    let t = table(&["BOV\t984\tBolivian Mvdol\tBO\t\t\t2\tfund"]);
    let reg = Registry::from_table(&t, None).unwrap();
    assert_eq!(reg.primary_currency(68), None);
}

#[test]
fn from_country_of_unknown_territory_is_empty() {
    let reg = Registry::new().unwrap();
    assert_eq!(reg.from_country(9999), Vec::new());
}
