//! The table loader: parses the tab-separated source table, one logical
//! record per non-header line, into validated `CurrencyRecord` values, and
//! rejects malformed rows with an error naming the offending line.
//!
//! The functions [`spec_parse_row`] and [`spec_parse_table`] are the exact
//! model of the loader; the executable parser is proved equal to them.

use vstd::prelude::*;

use crate::country::{territory_lookup, territory_of};
use crate::record::{is_code, is_upper, record_ok, records_ok, BuildError, CurrencyRecord,
    FlagSet, RecordModel};
use crate::text::{parse_number_at_most, spec_number_at_most, split_at_seps, split_str, str_eq};

verus! {

/// One step of reading a flags field: how one comma-separated token changes
/// the decomposed flag categories. Tokens other than `special`, `fund` and a
/// well-formed `superseded(...)` are intentionally ignored, for forward
/// compatibility with tables that gain new flag kinds; an unterminated
/// `superseded(` is malformed and rejected.
pub open spec fn spec_apply_flag(f: FlagSet, t: Seq<char>) -> Result<FlagSet, ()> {
    if t == "special"@ {
        Ok(FlagSet { special: true, ..f })
    } else if t == "fund"@ {
        Ok(FlagSet { fund: true, ..f })
    } else if t.len() >= 11 && t.take(11) == "superseded("@ {
        if t.len() >= 12 && t.last() == ')' {
            Ok(FlagSet { superseded: Some(t.subrange(11, t.len() - 1)), ..f })
        } else {
            Err(())
        }
    } else {
        Ok(f)
    }
}

/// The flag categories read from a sequence of flags tokens, left to right.
pub open spec fn spec_flags(tokens: Seq<Seq<char>>) -> Result<FlagSet, ()>
    decreases tokens.len(),
{
    if tokens.len() == 0 {
        Ok(FlagSet { special: false, fund: false, superseded: None })
    } else {
        match spec_flags(tokens.drop_last()) {
            Ok(f) => spec_apply_flag(f, tokens.last()),
            Err(e) => Err(e),
        }
    }
}

/// What one used-by token resolves to. An empty token — a doubled or
/// trailing `;` — is no territory name: only the whole field's emptiness is
/// the first-class absent value.
pub open spec fn territory_token(t: Seq<char>) -> Option<u16> {
    if t.len() == 0 {
        None
    } else {
        territory_of(t)
    }
}

/// The territory identifiers resolved from a sequence of alpha-2 names, or
/// nothing if any name is empty or unknown to the external enumeration.
pub open spec fn spec_territories(parts: Seq<Seq<char>>) -> Option<Seq<u16>>
    decreases parts.len(),
{
    if parts.len() == 0 {
        Some(Seq::empty())
    } else {
        match (spec_territories(parts.drop_last()), territory_token(parts.last())) {
            (Some(l), Some(t)) => Some(l.push(t)),
            _ => None,
        }
    }
}

/// The exact model of reading one table row: eight tab-separated fields in
/// the order code, numeric, name, used-by, symbol, subunit symbol, exponent,
/// flags. Empty used-by, subunit-symbol and exponent fields are first-class
/// absent values; an empty symbol field defaults to the generic currency
/// sign.
pub open spec fn spec_parse_row(line: Seq<char>, lineno: usize) -> Result<RecordModel, BuildError> {
    let fs = split_at_seps(line, '\t');
    if fs.len() != 8 {
        Err(BuildError::WrongFieldCount { line: lineno })
    } else if !is_code(fs[0]) {
        Err(BuildError::InvalidCode { line: lineno })
    } else {
        match spec_number_at_most(fs[1], 999) {
            None => Err(BuildError::InvalidNumeric { line: lineno }),
            Some(numeric) => {
                if fs[2].len() == 0 {
                    Err(BuildError::EmptyName { line: lineno })
                } else {
                    let used: Option<Option<Seq<u16>>> = if fs[3].len() == 0 {
                        Some(None)
                    } else {
                        match spec_territories(split_at_seps(fs[3], ';')) {
                            Some(l) => Some(Some(l)),
                            None => None,
                        }
                    };
                    match used {
                        None => Err(BuildError::UnknownTerritory { line: lineno }),
                        Some(used_by) => {
                            let expo: Option<Option<u8>> = if fs[6].len() == 0 {
                                Some(None)
                            } else {
                                match spec_number_at_most(fs[6], 9) {
                                    Some(e) => Some(Some(e as u8)),
                                    None => None,
                                }
                            };
                            match expo {
                                None => Err(BuildError::InvalidExponent { line: lineno }),
                                Some(exponent) => {
                                    match spec_flags(split_at_seps(fs[7], ',')) {
                                        Err(_) => Err(BuildError::MalformedFlags { line: lineno }),
                                        Ok(f) => Ok(
                                            RecordModel {
                                                code: fs[0],
                                                numeric: numeric as u16,
                                                name: fs[2],
                                                symbol: if fs[4].len() == 0 {
                                                    "\u{a4}"@
                                                } else {
                                                    fs[4]
                                                },
                                                subunit_symbol: if fs[5].len() == 0 {
                                                    None
                                                } else {
                                                    Some(fs[5])
                                                },
                                                exponent,
                                                used_by,
                                                is_fund: f.fund,
                                                is_special: f.special,
                                                superseded_by: f.superseded,
                                            },
                                        ),
                                    }
                                },
                            }
                        },
                    }
                }
            },
        }
    }
}

/// The lines of the source table; a trailing newline does not contribute a
/// final empty row.
pub open spec fn spec_table_lines(input: Seq<char>) -> Seq<Seq<char>> {
    let ls = split_at_seps(input, '\n');
    if ls.len() > 0 && ls.last().len() == 0 {
        ls.drop_last()
    } else {
        ls
    }
}

/// The records of the rows from `i` on; the first malformed row aborts the
/// whole table.
pub open spec fn spec_parse_rows(lines: Seq<Seq<char>>, i: int) -> Result<
    Seq<RecordModel>,
    BuildError,
>
    decreases lines.len() - i,
{
    if i < 0 || i >= lines.len() {
        Ok(Seq::empty())
    } else {
        match spec_parse_row(lines[i], (i + 1) as usize) {
            Err(e) => Err(e),
            Ok(m) => match spec_parse_rows(lines, i + 1) {
                Err(e) => Err(e),
                Ok(ms) => Ok(seq![m] + ms),
            },
        }
    }
}

/// The exact model of the table loader: line 1 is a header and is discarded;
/// every later line is one record.
pub open spec fn spec_parse_table(input: Seq<char>) -> Result<Seq<RecordModel>, BuildError> {
    spec_parse_rows(spec_table_lines(input), 1)
}

/// Whether `s` is three uppercase ASCII letters.
pub(crate) fn check_code(s: &str) -> (r: bool)
    ensures
        r == is_code(s@),
{
    let n = s.unicode_len();
    if n != 3 {
        return false;
    }
    let c0 = s.get_char(0) as u32;
    let c1 = s.get_char(1) as u32;
    let c2 = s.get_char(2) as u32;
    65 <= c0 && c0 <= 90 && 65 <= c1 && c1 <= 90 && 65 <= c2 && c2 <= 90
}

/// Reads a used-by field: a `;`-joined list of alpha-2 territory names, or
/// empty for no territory association. An empty token inside a non-empty
/// field is rejected as an unknown territory.
fn parse_used_by_field(field: &str, lineno: usize) -> (r: Result<Option<Vec<u16>>, BuildError>)
    ensures
        match r {
            Ok(opt) => match opt {
                Some(v) => field@.len() > 0 && spec_territories(split_at_seps(field@, ';'))
                    == Some(v@) && forall|i: int| 0 <= i < v@.len() ==> #[trigger] v@[i] < 1000,
                None => field@.len() == 0,
            },
            Err(e) => field@.len() > 0 && spec_territories(split_at_seps(field@, ';')) is None
                && e == (BuildError::UnknownTerritory { line: lineno }),
        },
{
    if field.unicode_len() == 0 {
        return Ok(None);
    }
    let parts = split_str(field, ';');
    let ghost pv = parts.deep_view();
    let mut ids: Vec<u16> = Vec::new();
    let mut i: usize = 0;
    while i < parts.len()
        invariant
            field@.len() > 0,
            pv == split_at_seps(field@, ';'),
            pv.len() == parts.len(),
            parts.deep_view() == pv,
            0 <= i <= parts.len(),
            spec_territories(pv.take(i as int)) == Some(ids@),
            forall|j: int| 0 <= j < ids@.len() ==> #[trigger] ids@[j] < 1000,
        decreases parts.len() - i,
    {
        let ghost prev = pv.take(i as int);
        proof {
            assert(parts.deep_view()[i as int] == parts@[i as int]@);
        }
        let tok = parts[i].as_str();
        let resolved: Option<u16> = if tok.unicode_len() == 0 {
            None
        } else {
            territory_lookup(tok)
        };
        match resolved {
            Some(t) => {
                ids.push(t);
            },
            None => {
                proof {
                    assert(territory_token(pv[i as int]) is None);
                    let whole = pv.take(pv.len() as int);
                    lemma_territories_prefix_none(pv, i as int);
                    assert(whole =~= pv);
                }
                return Err(BuildError::UnknownTerritory { line: lineno });
            },
        }
        i = i + 1;
        proof {
            assert(pv.take(i as int).drop_last() =~= prev);
            assert(pv.take(i as int).last() == pv[i - 1]);
        }
    }
    proof {
        assert(pv.take(pv.len() as int) =~= pv);
    }
    Ok(Some(ids))
}

/// If one name is empty or unknown, the whole list resolves to nothing.
proof fn lemma_territories_prefix_none(parts: Seq<Seq<char>>, i: int)
    requires
        0 <= i < parts.len(),
        territory_token(parts[i]) is None,
    ensures
        spec_territories(parts.take(parts.len() as int)) is None,
    decreases parts.len() - i,
{
    let whole = parts.take(parts.len() as int);
    assert(whole =~= parts);
    lemma_territories_none_from(parts, i, parts.len() as int);
}

/// Helper induction: a bad entry before `j` poisons the prefix of length `j`.
proof fn lemma_territories_none_from(parts: Seq<Seq<char>>, i: int, j: int)
    requires
        0 <= i < j <= parts.len(),
        territory_token(parts[i]) is None,
    ensures
        spec_territories(parts.take(j)) is None,
    decreases j - i,
{
    let p = parts.take(j);
    if i == j - 1 {
        assert(p.last() == parts[i]);
    } else {
        lemma_territories_none_from(parts, i, j - 1);
        assert(p.drop_last() =~= parts.take(j - 1));
    }
}

/// Reads a flags field into its three categories.
fn parse_flags_field(field: &str, lineno: usize) -> (r: Result<
    (bool, bool, Option<String>),
    BuildError,
>)
    ensures
        match r {
            Ok(t) => spec_flags(split_at_seps(field@, ',')) matches Ok(f) && f.special == t.0
                && f.fund == t.1 && (match t.2 {
                Some(s) => f.superseded == Some(s@),
                None => f.superseded is None,
            }),
            Err(e) => spec_flags(split_at_seps(field@, ',')) is Err && e == (
            BuildError::MalformedFlags { line: lineno }),
        },
{
    let tokens = split_str(field, ',');
    let ghost tv = tokens.deep_view();
    let mut special: bool = false;
    let mut fund: bool = false;
    let mut superseded: Option<String> = None;
    let mut i: usize = 0;
    while i < tokens.len()
        invariant
            tv == split_at_seps(field@, ','),
            tokens.deep_view() == tv,
            tv.len() == tokens.len(),
            0 <= i <= tokens.len(),
            spec_flags(tv.take(i as int)) matches Ok(f) && f.special == special && f.fund == fund
                && (match superseded {
                Some(s) => f.superseded == Some(s@),
                None => f.superseded is None,
            }),
        decreases tokens.len() - i,
    {
        let ghost prev = tv.take(i as int);
        let ghost fprev = spec_flags(prev)->Ok_0;
        proof {
            assert(tokens.deep_view()[i as int] == tokens@[i as int]@);
        }
        let t = tokens[i].as_str();
        let n = t.unicode_len();
        if str_eq(t, "special") {
            special = true;
        } else if str_eq(t, "fund") {
            fund = true;
        } else if n >= 11 && str_eq(t.substring_char(0, 11), "superseded(") {
            proof {
                assert(t@.subrange(0, 11) =~= t@.take(11));
            }
            if n >= 12 && t.get_char(n - 1) == ')' {
                superseded = Some(t.substring_char(11, n - 1).to_owned());
            } else {
                proof {
                    assert(spec_apply_flag(fprev, tv[i as int]) is Err);
                    lemma_flags_err_from(tv, i as int, tv.len() as int);
                    assert(tv.take(tv.len() as int) =~= tv);
                }
                return Err(BuildError::MalformedFlags { line: lineno });
            }
        } else {
            proof {
                assert(t@.len() >= 11 ==> t@.subrange(0, 11) =~= t@.take(11));
                assert(spec_apply_flag(fprev, tv[i as int]) == Ok::<FlagSet, ()>(fprev));
            }
        }
        i = i + 1;
        proof {
            assert(tv.take(i as int).drop_last() =~= prev);
            assert(tv.take(i as int).last() == tv[i - 1]);
        }
    }
    proof {
        assert(tv.take(tv.len() as int) =~= tv);
    }
    Ok((special, fund, superseded))
}

/// Helper induction: a malformed token before `j` poisons the prefix of
/// length `j`.
proof fn lemma_flags_err_from(tokens: Seq<Seq<char>>, i: int, j: int)
    requires
        0 <= i < j <= tokens.len(),
        spec_flags(tokens.take(i)) matches Ok(f) && spec_apply_flag(f, tokens[i]) is Err,
    ensures
        spec_flags(tokens.take(j)) is Err,
    decreases j - i,
{
    let p = tokens.take(j);
    if i == j - 1 {
        assert(p.drop_last() =~= tokens.take(i));
        assert(p.last() == tokens[i]);
    } else {
        lemma_flags_err_from(tokens, i, j - 1);
        assert(p.drop_last() =~= tokens.take(j - 1));
    }
}

/// Reads one table row.
fn parse_row(line: &str, lineno: usize) -> (r: Result<CurrencyRecord, BuildError>)
    ensures
        match r {
            Ok(rec) => spec_parse_row(line@, lineno) == Ok::<RecordModel, BuildError>(rec@)
                && record_ok(rec@),
            Err(e) => spec_parse_row(line@, lineno) == Err::<RecordModel, BuildError>(e),
        },
{
    let fields = split_str(line, '\t');
    let ghost fs = fields.deep_view();
    if fields.len() != 8 {
        return Err(BuildError::WrongFieldCount { line: lineno });
    }
    if !check_code(fields[0].as_str()) {
        return Err(BuildError::InvalidCode { line: lineno });
    }
    let numeric: u16 = match parse_number_at_most(fields[1].as_str(), 999) {
        Some(v) => v as u16,
        None => {
            return Err(BuildError::InvalidNumeric { line: lineno });
        },
    };
    if fields[2].as_str().unicode_len() == 0 {
        return Err(BuildError::EmptyName { line: lineno });
    }
    let used_by: Option<Vec<u16>> = match parse_used_by_field(fields[3].as_str(), lineno) {
        Ok(u) => u,
        Err(e) => {
            return Err(e);
        },
    };
    let exponent: Option<u8> = if fields[6].as_str().unicode_len() == 0 {
        None
    } else {
        match parse_number_at_most(fields[6].as_str(), 9) {
            Some(e) => Some(e as u8),
            None => {
                return Err(BuildError::InvalidExponent { line: lineno });
            },
        }
    };
    let (is_special, is_fund, superseded_by) = match parse_flags_field(
        fields[7].as_str(),
        lineno,
    ) {
        Ok(t) => t,
        Err(e) => {
            return Err(e);
        },
    };
    let symbol: String = if fields[4].as_str().unicode_len() == 0 {
        proof {
            reveal_strlit("\u{a4}");
        }
        "\u{a4}".to_owned()
    } else {
        fields[4].clone()
    };
    let subunit_symbol: Option<String> = if fields[5].as_str().unicode_len() == 0 {
        None
    } else {
        Some(fields[5].clone())
    };
    let rec = CurrencyRecord {
        code: fields[0].clone(),
        numeric,
        name: fields[2].clone(),
        symbol,
        subunit_symbol,
        exponent,
        used_by,
        is_fund,
        is_special,
        superseded_by,
    };
    proof {
        let m = spec_parse_row(line@, lineno)->Ok_0;
        assert(rec@ =~= m);
    }
    Ok(rec)
}

/// Parses the whole source table. Returns the records in table order, or the
/// error of the first malformed row.
pub fn parse_table(input: &str) -> (r: Result<Vec<CurrencyRecord>, BuildError>)
    ensures
        match r {
            Ok(v) => spec_parse_table(input@) == Ok::<Seq<RecordModel>, BuildError>(v.deep_view())
                && records_ok(v.deep_view()),
            Err(e) => spec_parse_table(input@) == Err::<Seq<RecordModel>, BuildError>(e),
        },
{
    let mut lines = split_str(input, '\n');
    if lines.len() > 0 && lines[lines.len() - 1].as_str().unicode_len() == 0 {
        let ghost before = lines.deep_view();
        lines.pop();
        proof {
            assert(lines.deep_view() =~= before.drop_last());
        }
    }
    let ghost lv = lines.deep_view();
    proof {
        assert(lv == spec_table_lines(input@));
    }
    let mut recs: Vec<CurrencyRecord> = Vec::new();
    let mut i: usize = 1;
    if lines.len() <= 1 {
        proof {
            assert(recs.deep_view() =~= Seq::<RecordModel>::empty());
        }
        return Ok(recs);
    }
    while i < lines.len()
        invariant
            lines.deep_view() == lv,
            lv == spec_table_lines(input@),
            lv.len() == lines.len(),
            1 <= i <= lines.len(),
            records_ok(recs.deep_view()),
            spec_parse_rows(lv, 1) == (match spec_parse_rows(lv, i as int) {
                Ok(ms) => Ok::<Seq<RecordModel>, BuildError>(recs.deep_view() + ms),
                Err(e) => Err::<Seq<RecordModel>, BuildError>(e),
            }),
        decreases lines.len() - i,
    {
        let ghost old_recs = recs.deep_view();
        proof {
            assert(lines.deep_view()[i as int] == lines@[i as int]@);
        }
        match parse_row(lines[i].as_str(), i + 1) {
            Ok(rec) => {
                recs.push(rec);
                proof {
                    assert(recs.deep_view() =~= old_recs + seq![rec@]);
                    if spec_parse_rows(lv, i as int + 1) is Ok {
                        let ms = spec_parse_rows(lv, i as int + 1)->Ok_0;
                        assert(old_recs + (seq![rec@] + ms) =~= recs.deep_view() + ms);
                    }
                }
            },
            Err(e) => {
                return Err(e);
            },
        }
        i = i + 1;
    }
    proof {
        assert(recs.deep_view() + Seq::<RecordModel>::empty() =~= recs.deep_view());
    }
    Ok(recs)
}

} // verus!
