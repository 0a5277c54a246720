//! Character-level text helpers for the table loader: separator splitting,
//! string equality, and bounded decimal parsing, each against an exact
//! mathematical model.

use vstd::prelude::*;

verus! {

/// Index of the first occurrence of `sep` in `s`, or `s.len()` if absent.
pub open spec fn sep_index(s: Seq<char>, sep: char) -> nat
    decreases s.len(),
{
    if s.len() == 0 {
        0
    } else if s[0] == sep {
        0
    } else {
        1 + sep_index(s.drop_first(), sep)
    }
}

pub proof fn lemma_sep_index(s: Seq<char>, sep: char)
    ensures
        sep_index(s, sep) <= s.len(),
        forall|j: int| 0 <= j < sep_index(s, sep) ==> s[j] != sep,
        sep_index(s, sep) < s.len() ==> s[sep_index(s, sep) as int] == sep,
    decreases s.len(),
{
    if s.len() == 0 {
    } else if s[0] == sep {
    } else {
        lemma_sep_index(s.drop_first(), sep);
        assert forall|j: int| 0 <= j < sep_index(s, sep) implies s[j] != sep by {
            if j > 0 {
                assert(s.drop_first()[j - 1] == s[j]);
            }
        }
        if sep_index(s, sep) < s.len() {
            assert(s.drop_first()[sep_index(s.drop_first(), sep) as int] == sep);
        }
    }
}

/// The pieces of `s` between occurrences of `sep`: splitting the empty
/// sequence gives one empty piece, and a trailing separator contributes a
/// final empty piece.
pub open spec fn split_at_seps(s: Seq<char>, sep: char) -> Seq<Seq<char>>
    decreases s.len(),
{
    let i = sep_index(s, sep);
    if i >= s.len() {
        seq![s]
    } else {
        seq![s.take(i as int)] + split_at_seps(s.skip(i as int + 1), sep)
    }
}

/// Splits `s` on every occurrence of `sep`.
pub fn split_str(s: &str, sep: char) -> (r: Vec<String>)
    ensures
        r.deep_view() == split_at_seps(s@, sep),
{
    let mut parts: Vec<String> = Vec::new();
    let mut rest: String = s.to_owned();
    loop
        invariant_except_break
            parts.deep_view() + split_at_seps(rest@, sep) == split_at_seps(s@, sep),
        ensures
            parts.deep_view() == split_at_seps(s@, sep),
        decreases rest@.len(),
    {
        let n = rest.as_str().unicode_len();
        let mut i: usize = 0;
        while i < n && rest.as_str().get_char(i) != sep
            invariant
                n == rest@.len(),
                0 <= i <= n,
                forall|j: int| 0 <= j < i ==> rest@[j] != sep,
            decreases n - i,
        {
            i = i + 1;
        }
        proof {
            lemma_sep_index(rest@, sep);
            assert(i == sep_index(rest@, sep));
        }
        if i == n {
            let ghost old_parts = parts.deep_view();
            let ghost last = rest@;
            parts.push(rest);
            proof {
                assert(parts.deep_view() =~= old_parts + seq![last]);
                assert(split_at_seps(last, sep) =~= seq![last]);
                assert(parts.deep_view() =~= split_at_seps(s@, sep));
            }
            break;
        } else {
            let ghost old_parts = parts.deep_view();
            let ghost old_rest = rest@;
            let piece = rest.as_str().substring_char(0, i).to_owned();
            parts.push(piece);
            let next = rest.as_str().substring_char(i + 1, n).to_owned();
            rest = next;
            proof {
                assert(old_rest.take(i as int) =~= old_rest.subrange(0, i as int));
                assert(rest@ =~= old_rest.skip(i + 1));
                assert(split_at_seps(old_rest, sep) == seq![old_rest.take(i as int)]
                    + split_at_seps(rest@, sep));
                assert(parts.deep_view() =~= old_parts + seq![old_rest.take(i as int)]);
                assert(parts.deep_view() + split_at_seps(rest@, sep) =~= (old_parts + seq![
                    old_rest.take(i as int),
                ]) + split_at_seps(rest@, sep));
            }
        }
    }
    parts
}

/// Character-for-character string equality.
pub fn str_eq(a: &str, b: &str) -> (r: bool)
    ensures
        r == (a@ == b@),
{
    let na = a.unicode_len();
    let nb = b.unicode_len();
    if na != nb {
        return false;
    }
    let mut i: usize = 0;
    while i < na
        invariant
            na == a@.len(),
            nb == b@.len(),
            na == nb,
            0 <= i <= na,
            forall|j: int| 0 <= j < i ==> a@[j] == b@[j],
        decreases na - i,
    {
        if a.get_char(i) != b.get_char(i) {
            return false;
        }
        i = i + 1;
    }
    proof {
        assert(a@ =~= b@);
    }
    true
}

/// A decimal digit.
pub open spec fn is_digit(c: char) -> bool {
    48 <= c as u32 <= 57
}

pub open spec fn all_digits(s: Seq<char>) -> bool {
    forall|i: int| 0 <= i < s.len() ==> is_digit(#[trigger] s[i])
}

/// Value of a sequence of decimal digits, most significant first.
pub open spec fn digits_val(s: Seq<char>) -> int
    decreases s.len(),
{
    if s.len() == 0 {
        0
    } else {
        digits_val(s.drop_last()) * 10 + (s.last() as u32 - 48)
    }
}

/// A non-empty all-digit sequence whose value is at most `cap` parses to its
/// value; everything else is rejected.
pub open spec fn spec_number_at_most(s: Seq<char>, cap: int) -> Option<int> {
    if s.len() > 0 && all_digits(s) && digits_val(s) <= cap {
        Some(digits_val(s))
    } else {
        None
    }
}

proof fn lemma_digits_val_nonneg(s: Seq<char>)
    requires
        all_digits(s),
    ensures
        digits_val(s) >= 0,
    decreases s.len(),
{
    if s.len() > 0 {
        assert(all_digits(s.drop_last())) by {
            assert(forall|i: int|
                0 <= i < s.len() - 1 ==> #[trigger] s.drop_last()[i] == s[i]);
        }
        lemma_digits_val_nonneg(s.drop_last());
    }
}

/// Appending digits never decreases the value.
proof fn lemma_digits_val_prefix(s: Seq<char>, i: int)
    requires
        all_digits(s),
        0 <= i <= s.len(),
    ensures
        digits_val(s.take(i)) <= digits_val(s),
    decreases s.len() - i,
{
    if i < s.len() {
        lemma_digits_val_prefix(s, i + 1);
        let t = s.take(i + 1);
        assert(t.drop_last() =~= s.take(i));
        assert(all_digits(s.take(i))) by {
            assert(forall|j: int| 0 <= j < i ==> #[trigger] s.take(i)[j] == s[j]);
        }
        lemma_digits_val_nonneg(s.take(i));
        assert(digits_val(t) == digits_val(s.take(i)) * 10 + (s[i] as u32 - 48));
    } else {
        assert(s.take(i) =~= s);
    }
}

/// Parses a decimal number of value at most `cap`.
pub fn parse_number_at_most(s: &str, cap: u32) -> (r: Option<u32>)
    requires
        cap <= 100000000,
    ensures
        match spec_number_at_most(s@, cap as int) {
            Some(v) => r matches Some(u) && u == v && u <= cap,
            None => r is None,
        },
{
    let n = s.unicode_len();
    if n == 0 {
        return None;
    }
    let mut v: u32 = 0;
    let mut i: usize = 0;
    while i < n
        invariant
            n == s@.len(),
            0 <= i <= n,
            cap <= 100000000,
            v <= cap,
            all_digits(s@.take(i as int)),
            v == digits_val(s@.take(i as int)),
        decreases n - i,
    {
        let u = s.get_char(i) as u32;
        if u < 48 || u > 57 {
            assert(!is_digit(s@[i as int]));
            return None;
        }
        let ghost prev = s@.take(i as int);
        proof {
            assert(s@.take(i + 1).drop_last() =~= prev);
            assert(all_digits(s@.take(i + 1))) by {
                assert(forall|j: int|
                    0 <= j < i ==> #[trigger] s@.take(i + 1)[j] == prev[j]);
            }
        }
        v = v * 10 + (u - 48);
        i = i + 1;
        if v > cap {
            proof {
                if all_digits(s@) {
                    lemma_digits_val_prefix(s@, i as int);
                    assert(s@.take(n as int) =~= s@);
                }
            }
            return None;
        }
    }
    proof {
        assert(s@.take(n as int) =~= s@);
    }
    Some(v)
}

} // verus!
