//! The lookup operations of the generated registry. Every operation is a
//! pure function of the registry's fixed tables: total over the closed set of
//! currencies, and an explicit "not found" result for arbitrary input.

use vstd::prelude::*;

use crate::parse::check_code;
use crate::record::{is_code, ParseCurrencyError};
use crate::registry::{code_key_exec, lemma_code_index, lemma_code_key_injective,
    lemma_numeric_index, spec_code_index, spec_code_key, spec_numeric_index, uses_territory,
    Currency, Flag, Registry};
use crate::sort::sorted_ids;
use crate::CurrencySymbol;

verus! {

/// Ten to the `e`-th power.
pub open spec fn pow10(e: nat) -> nat
    decreases e,
{
    if e == 0 {
        1
    } else {
        10 * pow10((e - 1) as nat)
    }
}

proof fn lemma_pow10_values()
    ensures
        pow10(0) == 1,
        pow10(1) == 10,
        pow10(2) == 100,
        pow10(3) == 1000,
        pow10(4) == 10000,
        pow10(5) == 100000,
        pow10(6) == 1000000,
        pow10(7) == 10000000,
        pow10(8) == 100000000,
        pow10(9) == 1000000000,
{
    assert(pow10(0) == 1);
    assert(pow10(1) == 10);
    assert(pow10(2) == 100);
    assert(pow10(3) == 1000);
    assert(pow10(4) == 10000);
    assert(pow10(5) == 100000);
    assert(pow10(6) == 1000000);
    assert(pow10(7) == 10000000);
    assert(pow10(8) == 100000000);
    assert(pow10(9) == 1000000000);
}

proof fn lemma_pow10_le(a: nat, b: nat)
    requires
        a <= b,
    ensures
        pow10(a) <= pow10(b),
    decreases b,
{
    if a < b {
        lemma_pow10_le(a, (b - 1) as nat);
    }
}

/// A record that carries no flag at all: not a fund, not special, not
/// superseded.
pub open spec fn unflagged(m: crate::record::RecordModel) -> bool {
    !m.is_special && !m.is_fund && m.superseded_by is None
}

impl Registry {
    /// The flags of the `i`-th record, in the fixed order Special, Fund,
    /// Superseded.
    pub open spec fn spec_flags_of(self, i: int) -> Seq<Flag> {
        let m = self@[i];
        (if m.is_special {
            seq![Flag::Special]
        } else {
            Seq::<Flag>::empty()
        }) + (if m.is_fund {
            seq![Flag::Fund]
        } else {
            Seq::<Flag>::empty()
        }) + (match m.superseded_by {
            Some(code) => match spec_code_index(self@, code) {
                Some(j) => seq![Flag::Superseded(Currency { index: j as usize })],
                None => Seq::<Flag>::empty(),
            },
            None => Seq::<Flag>::empty(),
        })
    }

    /// Number of currencies in the registry.
    pub fn len(&self) -> (n: usize)
        requires
            self.wf(),
        ensures
            n == self@.len(),
    {
        proof {
            self.lemma_wf_parts();
            assert(self.records.deep_view().len() == self.records@.len());
        }
        self.records.len()
    }

    /// All currencies, in table order.
    pub fn currencies(&self) -> (r: Vec<Currency>)
        requires
            self.wf(),
        ensures
            r@.len() == self@.len(),
            forall|k: int| 0 <= k < r@.len() ==> (#[trigger] r@[k])@ == k,
    {
        let n = self.len();
        let mut out: Vec<Currency> = Vec::new();
        let mut i: usize = 0;
        while i < n
            invariant
                0 <= i <= n,
                out@.len() == i,
                forall|k: int| 0 <= k < i ==> (#[trigger] out@[k])@ == k,
            decreases n - i,
        {
            out.push(Currency { index: i });
            i = i + 1;
        }
        out
    }

    /// The numeric identifier of a currency; total and exact.
    pub fn numeric(&self, c: Currency) -> (r: u16)
        requires
            self.wf(),
            self.contains_currency(c),
        ensures
            r == self@[c@].numeric,
            r <= 999,
    {
        proof {
            self.lemma_wf_parts();
            assert(self.records.deep_view()[c.index as int] == self.records@[c.index as int]@);
        }
        self.records[c.index].numeric
    }

    /// The English name of a currency; total, and never empty.
    pub fn name(&self, c: Currency) -> (r: String)
        requires
            self.wf(),
            self.contains_currency(c),
        ensures
            r@ == self@[c@].name,
            r@.len() > 0,
    {
        proof {
            self.lemma_wf_parts();
            assert(self.records.deep_view()[c.index as int] == self.records@[c.index as int]@);
        }
        self.records[c.index].name.clone()
    }

    /// The three-letter code of a currency; total, and round-trips through
    /// `from_code`.
    pub fn code(&self, c: Currency) -> (r: String)
        requires
            self.wf(),
            self.contains_currency(c),
        ensures
            r@ == self@[c@].code,
            is_code(r@),
    {
        proof {
            self.lemma_wf_parts();
            assert(self.records.deep_view()[c.index as int] == self.records@[c.index as int]@);
        }
        self.records[c.index].code.clone()
    }

    /// The display symbols of a currency; total, and the main symbol is
    /// never empty.
    pub fn symbol(&self, c: Currency) -> (r: CurrencySymbol)
        requires
            self.wf(),
            self.contains_currency(c),
        ensures
            r.symbol@ == self@[c@].symbol,
            r.symbol@.len() > 0,
            match self@[c@].subunit_symbol {
                Some(s) => r.subunit_symbol matches Some(t) && t@ == s,
                None => r.subunit_symbol is None,
            },
    {
        proof {
            self.lemma_wf_parts();
            assert(self.records.deep_view()[c.index as int] == self.records@[c.index as int]@);
        }
        let rec = &self.records[c.index];
        CurrencySymbol::new(
            rec.symbol.as_str(),
            match &rec.subunit_symbol {
                Some(s) => Some(s.as_str()),
                None => None,
            },
        )
    }

    /// The number of decimal subunit digits; absent exactly when the table
    /// has no subunit for the currency.
    pub fn exponent(&self, c: Currency) -> (r: Option<u8>)
        requires
            self.wf(),
            self.contains_currency(c),
        ensures
            r == self@[c@].exponent,
    {
        proof {
            self.lemma_wf_parts();
            assert(self.records.deep_view()[c.index as int] == self.records@[c.index as int]@);
        }
        self.records[c.index].exponent
    }

    /// How many subunits make one main unit: ten to the exponent, absent
    /// exactly when the exponent is.
    pub fn subunit_fraction(&self, c: Currency) -> (r: Option<u32>)
        requires
            self.wf(),
            self.contains_currency(c),
        ensures
            match self@[c@].exponent {
                Some(e) => r matches Some(v) && v == pow10(e as nat),
                None => r is None,
            },
            r is Some <==> self@[c@].exponent is Some,
    {
        proof {
            self.lemma_wf_parts();
            assert(self.records.deep_view()[c.index as int] == self.records@[c.index as int]@);
        }
        match self.records[c.index].exponent {
            Some(e) => {
                let mut v: u32 = 1;
                let mut k: u8 = 0;
                while k < e
                    invariant
                        k <= e <= 9,
                        v == pow10(k as nat),
                    decreases e - k,
                {
                    proof {
                        lemma_pow10_values();
                        lemma_pow10_le(k as nat, 8);
                    }
                    v = v * 10;
                    k = k + 1;
                }
                Some(v)
            },
            None => None,
        }
    }

    /// The issuing territories, ascending in the territory ordering; empty
    /// when the table has none.
    pub fn used_by(&self, c: Currency) -> (r: Vec<u16>)
        requires
            self.wf(),
            self.contains_currency(c),
        ensures
            r@ == (match self@[c@].used_by {
                Some(l) => l,
                None => Seq::<u16>::empty(),
            }),
            sorted_ids(r@),
    {
        proof {
            self.lemma_wf_parts();
            assert(self.records.deep_view()[c.index as int] == self.records@[c.index as int]@);
        }
        let mut out: Vec<u16> = Vec::new();
        match &self.records[c.index].used_by {
            Some(l) => {
                let n = l.len();
                let mut i: usize = 0;
                while i < n
                    invariant
                        n == l@.len(),
                        0 <= i <= n,
                        out@ == l@.take(i as int),
                    decreases n - i,
                {
                    out.push(l[i]);
                    proof {
                        assert(out@ =~= l@.take(i as int + 1));
                    }
                    i = i + 1;
                }
                proof {
                    assert(l@.take(n as int) =~= l@);
                }
            },
            None => {
                proof {
                    assert(out@ =~= Seq::<u16>::empty());
                }
            },
        }
        out
    }

    /// The currency with exactly this code: case-sensitive, `None` for any
    /// string that is not a code of the table.
    pub fn from_code(&self, code: &str) -> (r: Option<Currency>)
        requires
            self.wf(),
        ensures
            match r {
                Some(c) => self.contains_currency(c) && spec_code_index(self@, code@) == Some(c@)
                    && self@[c@].code == code@,
                None => spec_code_index(self@, code@) is None && forall|i: int|
                    0 <= i < self@.len() ==> (#[trigger] self@[i]).code != code@,
            },
    {
        proof {
            self.lemma_wf_parts();
            lemma_code_index(self@, code@);
        }
        if !check_code(code) {
            proof {
                if spec_code_index(self@, code@) is Some {
                    let j = spec_code_index(self@, code@)->Some_0;
                    assert(self@[j].code == code@);
                    assert(is_code(self@[j].code));
                    assert(false);
                }
            }
            return None;
        }
        let key = code_key_exec(code);
        match self.by_code[key] {
            Some(j) => {
                proof {
                    lemma_code_key_injective(self@[j as int].code, code@);
                    if spec_code_index(self@, code@) is Some {
                        let k = spec_code_index(self@, code@)->Some_0;
                        if k != j {
                            assert(self@[k].code == self@[j as int].code);
                        }
                    } else {
                        assert(self@[j as int].code != code@);
                    }
                }
                Some(Currency { index: j })
            },
            None => {
                proof {
                    if spec_code_index(self@, code@) is Some {
                        let k = spec_code_index(self@, code@)->Some_0;
                        assert(self.by_code@[spec_code_key(self@[k].code)] == Some(k as usize));
                        assert(false);
                    }
                }
                None
            },
        }
    }

    /// The currency with exactly this numeric identifier, or `None`.
    pub fn from_numeric(&self, numeric: u16) -> (r: Option<Currency>)
        requires
            self.wf(),
        ensures
            match r {
                Some(c) => self.contains_currency(c) && spec_numeric_index(self@, numeric) == Some(
                    c@,
                ) && self@[c@].numeric == numeric,
                None => spec_numeric_index(self@, numeric) is None && forall|i: int|
                    0 <= i < self@.len() ==> (#[trigger] self@[i]).numeric != numeric,
            },
    {
        proof {
            self.lemma_wf_parts();
            lemma_numeric_index(self@, numeric);
        }
        if numeric > 999 {
            proof {
                if spec_numeric_index(self@, numeric) is Some {
                    let j = spec_numeric_index(self@, numeric)->Some_0;
                    assert(self@[j].numeric <= 999);
                    assert(false);
                }
            }
            return None;
        }
        match self.by_numeric[numeric as usize] {
            Some(j) => {
                proof {
                    if spec_numeric_index(self@, numeric) is Some {
                        let k = spec_numeric_index(self@, numeric)->Some_0;
                        if k != j {
                            assert(self@[k].numeric == self@[j as int].numeric);
                        }
                    } else {
                        assert(self@[j as int].numeric != numeric);
                    }
                }
                Some(Currency { index: j })
            },
            None => {
                proof {
                    if spec_numeric_index(self@, numeric) is Some {
                        let k = spec_numeric_index(self@, numeric)->Some_0;
                        assert(self.by_numeric@[self@[k].numeric as int] == Some(k as usize));
                        assert(false);
                    }
                }
                None
            },
        }
    }

    /// The string-parsing entry point: as `from_code`, but "not found" is a
    /// dedicated error value.
    pub fn parse_code(&self, code: &str) -> (r: Result<Currency, ParseCurrencyError>)
        requires
            self.wf(),
        ensures
            match r {
                Ok(c) => self.contains_currency(c) && spec_code_index(self@, code@) == Some(c@)
                    && self@[c@].code == code@,
                Err(e) => spec_code_index(self@, code@) is None && e == ParseCurrencyError,
            },
    {
        match self.from_code(code) {
            Some(c) => Ok(c),
            None => Err(ParseCurrencyError),
        }
    }

    /// The currency is an investment-fund unit.
    pub fn is_fund(&self, c: Currency) -> (r: bool)
        requires
            self.wf(),
            self.contains_currency(c),
        ensures
            r == self@[c@].is_fund,
    {
        proof {
            self.lemma_wf_parts();
            assert(self.records.deep_view()[c.index as int] == self.records@[c.index as int]@);
        }
        self.records[c.index].is_fund
    }

    /// The currency is a non-circulating special-purpose unit.
    pub fn is_special(&self, c: Currency) -> (r: bool)
        requires
            self.wf(),
            self.contains_currency(c),
        ensures
            r == self@[c@].is_special,
    {
        proof {
            self.lemma_wf_parts();
            assert(self.records.deep_view()[c.index as int] == self.records@[c.index as int]@);
        }
        self.records[c.index].is_special
    }

    /// The direct successor of a superseded currency, or `None`.
    pub fn is_superseded(&self, c: Currency) -> (r: Option<Currency>)
        requires
            self.wf(),
            self.contains_currency(c),
        ensures
            match self@[c@].superseded_by {
                Some(code) => r matches Some(y) && self.contains_currency(y) && spec_code_index(
                    self@,
                    code,
                ) == Some(y@) && self@[y@].code == code,
                None => r is None,
            },
    {
        proof {
            self.lemma_wf_parts();
            assert(self.records.deep_view()[c.index as int] == self.records@[c.index as int]@);
        }
        match &self.records[c.index].superseded_by {
            Some(cs) => {
                proof {
                    assert(self@[c@].superseded_by == Some(cs@));
                    lemma_code_index(self@, cs@);
                    let j = spec_code_index(self@, cs@)->Some_0;
                    assert(self@[j].code == cs@);
                    assert(is_code(cs@));
                }
                let key = code_key_exec(cs.as_str());
                match self.by_code[key] {
                    Some(j) => {
                        proof {
                            lemma_code_key_injective(self@[j as int].code, cs@);
                            let k = spec_code_index(self@, cs@)->Some_0;
                            if k != j {
                                assert(self@[k].code == self@[j as int].code);
                            }
                        }
                        Some(Currency { index: j })
                    },
                    None => {
                        proof {
                            let k = spec_code_index(self@, cs@)->Some_0;
                            assert(self.by_code@[spec_code_key(self@[k].code)] == Some(k as usize));
                            assert(false);
                        }
                        None
                    },
                }
            },
            None => None,
        }
    }

    /// The direct successor if the currency is superseded, else the currency
    /// itself: a single hop, never a chain walk.
    pub fn latest(&self, c: Currency) -> (r: Currency)
        requires
            self.wf(),
            self.contains_currency(c),
        ensures
            self.contains_currency(r),
            match self@[c@].superseded_by {
                Some(code) => spec_code_index(self@, code) == Some(r@) && self@[r@].code == code,
                None => r == c,
            },
    {
        match self.is_superseded(c) {
            Some(y) => y,
            None => c,
        }
    }

    /// The flags of a currency, in the fixed order Special, Fund,
    /// Superseded.
    pub fn flags(&self, c: Currency) -> (r: Vec<Flag>)
        requires
            self.wf(),
            self.contains_currency(c),
        ensures
            r@ == self.spec_flags_of(c@),
    {
        proof {
            self.lemma_wf_parts();
            assert(self.records.deep_view()[c.index as int] == self.records@[c.index as int]@);
        }
        let mut out: Vec<Flag> = Vec::new();
        if self.records[c.index].is_special {
            out.push(Flag::Special);
        }
        if self.records[c.index].is_fund {
            out.push(Flag::Fund);
        }
        match self.is_superseded(c) {
            Some(y) => {
                out.push(Flag::Superseded(y));
            },
            None => {},
        }
        proof {
            assert(out@ =~= self.spec_flags_of(c@));
        }
        out
    }

    /// Whether `flags` of the currency contains an equal flag.
    pub fn has_flag(&self, c: Currency, f: Flag) -> (r: bool)
        requires
            self.wf(),
            self.contains_currency(c),
        ensures
            r == self.spec_flags_of(c@).contains(f),
    {
        let fl = self.flags(c);
        let n = fl.len();
        let mut i: usize = 0;
        while i < n
            invariant
                n == fl@.len(),
                fl@ == self.spec_flags_of(c@),
                0 <= i <= n,
                forall|j: int| 0 <= j < i ==> fl@[j] != f,
            decreases n - i,
        {
            if fl[i] == f {
                return true;
            }
            i = i + 1;
        }
        proof {
            if self.spec_flags_of(c@).contains(f) {
                let j = choose|j: int| 0 <= j < fl@.len() && fl@[j] == f;
                assert(false);
            }
        }
        false
    }

    /// All currencies whose used-by list contains the territory, in table
    /// order; empty if none does.
    pub fn from_country(&self, territory: u16) -> (r: Vec<Currency>)
        requires
            self.wf(),
        ensures
            forall|k: int|
                0 <= k < r@.len() ==> self.contains_currency(#[trigger] r@[k]) && uses_territory(
                    self@[r@[k]@],
                    territory,
                ),
            forall|k1: int, k2: int| 0 <= k1 < k2 < r@.len() ==> r@[k1]@ < r@[k2]@,
            forall|i: int|
                0 <= i < self@.len() && uses_territory(#[trigger] self@[i], territory)
                    ==> exists|k: int| 0 <= k < r@.len() && (#[trigger] r@[k])@ == i,
    {
        proof {
            self.lemma_wf_parts();
        }
        let mut out: Vec<Currency> = Vec::new();
        if territory >= 1000 {
            proof {
                assert forall|i: int|
                    0 <= i < self@.len() && uses_territory(
                        #[trigger] self@[i],
                        territory,
                    ) implies false by {
                    let l = self@[i].used_by->Some_0;
                    let x = choose|x: int| 0 <= x < l.len() && l[x] == territory;
                    assert(l[x] < 1000);
                }
            }
            return out;
        }
        let l = &self.by_territory[territory as usize];
        let n = l.len();
        let mut k: usize = 0;
        while k < n
            invariant
                n == l@.len(),
                0 <= k <= n,
                out@.len() == k,
                forall|x: int| 0 <= x < k ==> (#[trigger] out@[x])@ == l@[x],
            decreases n - k,
        {
            out.push(Currency { index: l[k] });
            k = k + 1;
        }
        proof {
            assert forall|i: int|
                0 <= i < self@.len() && uses_territory(#[trigger] self@[i], territory)
                    implies exists|x: int|
                0 <= x < out@.len() && (#[trigger] out@[x])@ == i by {
                assert(l@.contains(i as usize));
                let x = choose|x: int| 0 <= x < l@.len() && l@[x] == i as usize;
                assert(out@[x]@ == i);
            }
        }
        out
    }

    /// The territory's primary circulating currency: the first currency in
    /// `from_country` order that carries no flag. Partial: some territories
    /// have no unflagged currency, and the result is then `None`.
    pub fn primary_currency(&self, territory: u16) -> (r: Option<Currency>)
        requires
            self.wf(),
        ensures
            match r {
                Some(c) => self.contains_currency(c) && uses_territory(self@[c@], territory)
                    && unflagged(self@[c@]) && forall|i: int|
                    0 <= i < c@ && uses_territory(#[trigger] self@[i], territory) ==> !unflagged(
                        self@[i],
                    ),
                None => forall|i: int|
                    0 <= i < self@.len() && uses_territory(#[trigger] self@[i], territory)
                        ==> !unflagged(self@[i]),
            },
    {
        proof {
            self.lemma_wf_parts();
        }
        let cs = self.from_country(territory);
        let n = cs.len();
        let mut k: usize = 0;
        while k < n
            invariant
                self.wf(),
                n == cs@.len(),
                0 <= k <= n,
                forall|x: int|
                    0 <= x < cs@.len() ==> self.contains_currency(#[trigger] cs@[x])
                        && uses_territory(self@[cs@[x]@], territory),
                forall|x1: int, x2: int| 0 <= x1 < x2 < cs@.len() ==> cs@[x1]@ < cs@[x2]@,
                forall|i: int|
                    0 <= i < self@.len() && uses_territory(#[trigger] self@[i], territory)
                        ==> exists|x: int| 0 <= x < cs@.len() && (#[trigger] cs@[x])@ == i,
                forall|x: int| 0 <= x < k ==> !unflagged(self@[(#[trigger] cs@[x])@]),
            decreases n - k,
        {
            let c = cs[k];
            proof {
                self.lemma_wf_parts();
                assert(self.records.deep_view()[c.index as int] == self.records@[c.index as int]@);
            }
            let rec = &self.records[c.index];
            let un = !rec.is_special && !rec.is_fund && match &rec.superseded_by {
                Some(_) => false,
                None => true,
            };
            if un {
                proof {
                    assert(unflagged(self@[c@]));
                    assert forall|i: int|
                        0 <= i < c@ && uses_territory(#[trigger] self@[i], territory)
                            implies !unflagged(self@[i]) by {
                        let x = choose|x: int|
                            0 <= x < cs@.len() && (#[trigger] cs@[x])@ == i;
                        if x > k {
                            assert(cs@[k as int]@ < cs@[x]@);
                        }
                    }
                }
                return Some(c);
            }
            k = k + 1;
        }
        proof {
            assert forall|i: int|
                0 <= i < self@.len() && uses_territory(#[trigger] self@[i], territory)
                    implies !unflagged(self@[i]) by {
                let x = choose|x: int| 0 <= x < cs@.len() && (#[trigger] cs@[x])@ == i;
            }
        }
        None
    }
}

} // verus!

