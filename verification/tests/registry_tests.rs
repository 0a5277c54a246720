//! The lookup surface of the registry generated from the bundled table.

use iso_country::Country;
use iso_currency::{Currency, Flag, ParseCurrencyError, Registry};

fn registry() -> Registry {
    Registry::new().unwrap()
}

fn c(reg: &Registry, code: &str) -> Currency {
    reg.from_code(code).unwrap()
}

#[test]
fn return_numeric_code() {
    let reg = registry();
    assert_eq!(reg.numeric(c(&reg, "EUR")), 978);
    assert_eq!(reg.numeric(c(&reg, "BBD")), 52);
    assert_eq!(reg.numeric(c(&reg, "XXX")), 999);
}

#[test]
fn return_name() {
    let reg = registry();
    assert_eq!(reg.name(c(&reg, "EUR")), "Euro");
    assert_eq!(reg.name(c(&reg, "BGN")), "Bulgarian lev");
    assert_eq!(reg.name(c(&reg, "USD")), "United States dollar");
}

#[test]
fn return_code() {
    let reg = registry();
    assert_eq!(reg.code(c(&reg, "EUR")), "EUR");
}

#[test]
fn from_code() {
    let reg = registry();
    assert_eq!(reg.from_code("EUR"), Some(c(&reg, "EUR")));
    assert_eq!(reg.from_code("SEK"), Some(c(&reg, "SEK")));
    assert_eq!(reg.from_code("BGN"), Some(c(&reg, "BGN")));
    assert_eq!(reg.from_code("AAA"), None);
}

#[test]
fn from_numeric() {
    let reg = registry();
    assert_eq!(reg.from_numeric(999), Some(c(&reg, "XXX")));
    assert_eq!(reg.from_numeric(52), Some(c(&reg, "BBD")));
    assert_eq!(reg.from_numeric(978), Some(c(&reg, "EUR")));
    assert_eq!(reg.from_numeric(12), Some(c(&reg, "DZD")));
    assert_eq!(reg.from_numeric(123), None);
}

#[test]
fn used_by() {
    let reg = registry();
    assert_eq!(reg.used_by(c(&reg, "BGN")), vec![Country::BG as u16]);
    assert_eq!(
        reg.used_by(c(&reg, "CHF")),
        vec![Country::LI as u16, Country::CH as u16]
    );
}

#[test]
fn symbol() {
    let reg = registry();
    assert_eq!(reg.symbol(c(&reg, "EUR")).symbol, "€");
    assert_eq!(reg.symbol(c(&reg, "XXX")).symbol, "¤");
    assert_eq!(reg.symbol(c(&reg, "GEL")).symbol, "ლ");
    assert_eq!(reg.symbol(c(&reg, "AED")).symbol, "د.إ");
}

#[test]
fn subunit_fraction() {
    let reg = registry();
    assert_eq!(reg.subunit_fraction(c(&reg, "EUR")), Some(100));
    assert_eq!(reg.subunit_fraction(c(&reg, "DZD")), Some(100));
    assert_eq!(reg.subunit_fraction(c(&reg, "MRU")), Some(100));
    assert_eq!(reg.subunit_fraction(c(&reg, "XAU")), None);
}

#[test]
fn subunit_exponent() {
    let reg = registry();
    assert_eq!(reg.exponent(c(&reg, "EUR")), Some(2));
    assert_eq!(reg.exponent(c(&reg, "JPY")), Some(0));
    assert_eq!(reg.exponent(c(&reg, "MRU")), Some(2));
}

#[test]
fn can_be_sorted() {
    let reg = registry();
    let mut v = vec![c(&reg, "SEK"), c(&reg, "DKK"), c(&reg, "EUR")];
    v.sort();
    assert_eq!(v, vec![c(&reg, "DKK"), c(&reg, "EUR"), c(&reg, "SEK")]);
}

#[test]
fn implements_from_str() {
    let reg = registry();
    assert_eq!(reg.parse_code("EUR"), Ok(c(&reg, "EUR")));
    assert_eq!(reg.parse_code("SEK"), Ok(c(&reg, "SEK")));
    assert_eq!(reg.parse_code("BGN"), Ok(c(&reg, "BGN")));
    assert_eq!(reg.parse_code("AAA"), Err(ParseCurrencyError));
}

#[test]
fn test_iterator() {
    let reg = registry();
    let all = reg.currencies();
    assert_eq!(reg.code(all[0]), "AED");
    assert_eq!(reg.code(all[1]), "AFN");
}

#[test]
fn test_is_fund() {
    let reg = registry();
    assert!(reg.is_fund(c(&reg, "BOV")));
    assert!(!reg.is_fund(c(&reg, "EUR")));
}

#[test]
fn test_is_special() {
    let reg = registry();
    assert!(reg.is_special(c(&reg, "XBA")));
    assert!(!reg.is_special(c(&reg, "EUR")));
}

#[test]
fn test_is_superseded() {
    let reg = registry();
    assert_eq!(reg.is_superseded(c(&reg, "VES")), Some(c(&reg, "VED")));
    assert_eq!(reg.is_superseded(c(&reg, "VED")), None);
}

#[test]
fn test_latest() {
    let reg = registry();
    assert_eq!(reg.latest(c(&reg, "VED")), c(&reg, "VED"));
    assert_eq!(reg.latest(c(&reg, "VES")), c(&reg, "VED"));
}

#[test]
fn test_flags() {
    let reg = registry();
    assert_eq!(reg.flags(c(&reg, "BOV")), vec![Flag::Fund]);
    assert_eq!(reg.flags(c(&reg, "XBA")), vec![Flag::Special]);
    assert_eq!(
        reg.flags(c(&reg, "VES")),
        vec![Flag::Superseded(c(&reg, "VED"))]
    );
    assert_eq!(reg.flags(c(&reg, "VED")), vec![]);
}

#[test]
fn test_has_flag() {
    let reg = registry();
    assert!(reg.has_flag(c(&reg, "BOV"), Flag::Fund));
    assert!(!reg.has_flag(c(&reg, "XBA"), Flag::Fund));
}

#[test]
fn test_from_country() {
    let reg = registry();
    assert_eq!(
        reg.from_country(Country::AF as u16),
        vec![c(&reg, "AFN")]
    );
    assert_eq!(
        reg.from_country(Country::IO as u16),
        vec![c(&reg, "GBP"), c(&reg, "USD")]
    );
}

#[test]
fn test_from_country_trait() {
    let reg = registry();
    assert_eq!(
        reg.primary_currency(Country::AF as u16),
        Some(c(&reg, "AFN"))
    );
    assert_eq!(
        reg.primary_currency(Country::IO as u16),
        Some(c(&reg, "GBP"))
    );
}

#[test]
fn round_trip_every_currency() {
    let reg = registry();
    for cur in reg.currencies() {
        assert_eq!(reg.from_code(&reg.code(cur)), Some(cur));
        assert_eq!(reg.from_numeric(reg.numeric(cur)), Some(cur));
    }
}

#[test]
fn codes_and_numerics_unique() {
    let reg = registry();
    let all = reg.currencies();
    for a in &all {
        for b in &all {
            if a != b {
                assert_ne!(reg.code(*a), reg.code(*b));
                assert_ne!(reg.numeric(*a), reg.numeric(*b));
            }
        }
    }
}

#[test]
fn used_by_sorted_for_all() {
    let reg = registry();
    for cur in reg.currencies() {
        let l = reg.used_by(cur);
        for w in l.windows(2) {
            assert!(w[0] <= w[1]);
        }
    }
}

#[test]
fn flag_consistency() {
    let reg = registry();
    for cur in reg.currencies() {
        let fl = reg.flags(cur);
        for f in [
            Flag::Fund,
            Flag::Special,
            Flag::Superseded(c(&reg, "VED")),
        ] {
            assert_eq!(reg.has_flag(cur, f), fl.contains(&f));
        }
    }
}

#[test]
fn supersession_single_hop_for_all() {
    let reg = registry();
    for cur in reg.currencies() {
        match reg.is_superseded(cur) {
            Some(successor) => assert_eq!(reg.latest(cur), successor),
            None => assert_eq!(reg.latest(cur), cur),
        }
    }
}

#[test]
fn subunit_consistency_for_all() {
    let reg = registry();
    for cur in reg.currencies() {
        let e = reg.exponent(cur);
        let f = reg.subunit_fraction(cur);
        assert_eq!(e.is_some(), f.is_some());
        if let (Some(e), Some(f)) = (e, f) {
            assert_eq!(f, 10u32.pow(e as u32));
        }
    }
}

#[test]
fn names_and_symbols_nonempty_for_all() {
    let reg = registry();
    for cur in reg.currencies() {
        assert!(!reg.name(cur).is_empty());
        assert!(!reg.symbol(cur).symbol.is_empty());
    }
}

#[test]
fn negative_lookups() {
    let reg = registry();
    assert_eq!(reg.from_code("AAA"), None);
    assert_eq!(reg.from_code("EU"), None);
    assert_eq!(reg.from_code("eur"), None);
    assert_eq!(reg.from_numeric(9999), None);
}

#[test]
fn parse_error_message() {
    assert_eq!(
        ParseCurrencyError.message(),
        "not a valid ISO 4217 currency code"
    );
}

#[test]
fn currency_symbol_new() {
    let s = iso_currency::CurrencySymbol::new("kr", Some("øre"));
    assert_eq!(s.symbol, "kr");
    assert_eq!(s.subunit_symbol, Some("øre".to_string()));
    let t = iso_currency::CurrencySymbol::new("£", None);
    assert_eq!(t.subunit_symbol, None);
}
