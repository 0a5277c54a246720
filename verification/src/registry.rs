//! The registry generator: turns the validated record sequence into a closed
//! set of lookup tables, rejecting structurally inconsistent input (duplicate
//! codes or numeric identifiers, unresolved or self-referring supersessions,
//! an empty effective table).
//!
//! [`spec_build`] is the exact model of generation; [`Registry::build`] is
//! proved equal to it. The generated registry is immutable lookup data: an
//! ordered record list, a code-keyed table, a numeric-keyed table, and an
//! inverted territory-to-currencies table.

use vstd::prelude::*;

use crate::parse::check_code;
use crate::record::{is_code, record_ok, records_ok, BuildError, CurrencyRecord, RecordModel};
use crate::sort::{sort_ids, sort_ids_spec, sorted_ids};
use crate::text::str_eq;

verus! {

/// One currency of the registry: the `i`-th record of the table, in table
/// order. Values are obtained from the registry's lookup functions; the
/// ordering is table order (ascending code, for the bundled table).
#[derive(Clone, Copy, Debug, PartialEq, Eq, PartialOrd, Ord, Hash, Structural)]
pub struct Currency {
    /// Position of the record in table order.
    pub index: usize,
}

impl View for Currency {
    type V = int;

    open spec fn view(&self) -> int {
        self.index as int
    }
}

/// Classification of a currency record, reconstructed from its flags.
#[derive(Clone, Copy, Debug, PartialEq, Eq, Structural)]
pub enum Flag {
    /// The currency is an investment-fund unit.
    Fund,
    /// The currency is a non-circulating special-purpose unit.
    Special,
    /// The currency is superseded by the named currency.
    Superseded(Currency),
}

/// No two records share a code.
pub open spec fn codes_unique(rs: Seq<RecordModel>) -> bool {
    forall|i: int, j: int|
        0 <= i < j < rs.len() ==> (#[trigger] rs[i]).code != (#[trigger] rs[j]).code
}

/// No two records share a numeric identifier.
pub open spec fn numerics_unique(rs: Seq<RecordModel>) -> bool {
    forall|i: int, j: int|
        0 <= i < j < rs.len() ==> (#[trigger] rs[i]).numeric != (#[trigger] rs[j]).numeric
}

/// Index of the first record with the given code.
pub open spec fn spec_code_index(rs: Seq<RecordModel>, code: Seq<char>) -> Option<int>
    decreases rs.len(),
{
    if rs.len() == 0 {
        None
    } else if rs[0].code == code {
        Some(0)
    } else {
        match spec_code_index(rs.drop_first(), code) {
            Some(i) => Some(i + 1),
            None => None,
        }
    }
}

/// Index of the first record with the given numeric identifier.
pub open spec fn spec_numeric_index(rs: Seq<RecordModel>, numeric: u16) -> Option<int>
    decreases rs.len(),
{
    if rs.len() == 0 {
        None
    } else if rs[0].numeric == numeric {
        Some(0)
    } else {
        match spec_numeric_index(rs.drop_first(), numeric) {
            Some(i) => Some(i + 1),
            None => None,
        }
    }
}

pub proof fn lemma_code_index(rs: Seq<RecordModel>, code: Seq<char>)
    ensures
        match spec_code_index(rs, code) {
            Some(i) => 0 <= i < rs.len() && rs[i].code == code && forall|j: int|
                0 <= j < i ==> (#[trigger] rs[j]).code != code,
            None => forall|j: int| 0 <= j < rs.len() ==> (#[trigger] rs[j]).code != code,
        },
    decreases rs.len(),
{
    if rs.len() > 0 && rs[0].code != code {
        let d = rs.drop_first();
        lemma_code_index(d, code);
        assert(forall|j: int| 0 <= j < d.len() ==> #[trigger] d[j] == rs[j + 1]);
        match spec_code_index(d, code) {
            Some(i) => {
                assert(spec_code_index(rs, code) == Some(i + 1));
                assert(rs[i + 1].code == code) by {
                    assert(d[i] == rs[i + 1]);
                }
                assert forall|j: int| 0 <= j < i + 1 implies (#[trigger] rs[j]).code != code by {
                    if j > 0 {
                        assert(d[j - 1] == rs[j]);
                    }
                }
            },
            None => {
                assert forall|j: int| 0 <= j < rs.len() implies (#[trigger] rs[j]).code
                    != code by {
                    if j > 0 {
                        assert(d[j - 1] == rs[j]);
                    }
                }
            },
        }
    }
}

pub proof fn lemma_numeric_index(rs: Seq<RecordModel>, numeric: u16)
    ensures
        match spec_numeric_index(rs, numeric) {
            Some(i) => 0 <= i < rs.len() && rs[i].numeric == numeric && forall|j: int|
                0 <= j < i ==> (#[trigger] rs[j]).numeric != numeric,
            None => forall|j: int| 0 <= j < rs.len() ==> (#[trigger] rs[j]).numeric != numeric,
        },
    decreases rs.len(),
{
    if rs.len() > 0 && rs[0].numeric != numeric {
        let d = rs.drop_first();
        lemma_numeric_index(d, numeric);
        assert(forall|j: int| 0 <= j < d.len() ==> #[trigger] d[j] == rs[j + 1]);
        match spec_numeric_index(d, numeric) {
            Some(i) => {
                assert(spec_numeric_index(rs, numeric) == Some(i + 1));
                assert(rs[i + 1].numeric == numeric) by {
                    assert(d[i] == rs[i + 1]);
                }
                assert forall|j: int| 0 <= j < i + 1 implies (#[trigger] rs[j]).numeric
                    != numeric by {
                    if j > 0 {
                        assert(d[j - 1] == rs[j]);
                    }
                }
            },
            None => {
                assert forall|j: int| 0 <= j < rs.len() implies (#[trigger] rs[j]).numeric
                    != numeric by {
                    if j > 0 {
                        assert(d[j - 1] == rs[j]);
                    }
                }
            },
        }
    }
}

/// With unique codes, the first index of a record's own code is its index.
pub proof fn lemma_code_index_of(rs: Seq<RecordModel>, i: int)
    requires
        0 <= i < rs.len(),
        codes_unique(rs),
    ensures
        spec_code_index(rs, rs[i].code) == Some(i),
{
    lemma_code_index(rs, rs[i].code);
}

/// With unique numeric identifiers, the first index of a record's own
/// numeric identifier is its index.
pub proof fn lemma_numeric_index_of(rs: Seq<RecordModel>, i: int)
    requires
        0 <= i < rs.len(),
        numerics_unique(rs),
    ensures
        spec_numeric_index(rs, rs[i].numeric) == Some(i),
{
    lemma_numeric_index(rs, rs[i].numeric);
}

/// A record's supersession target, where there is one, names another record
/// of the table.
pub open spec fn supersessions_resolve(rs: Seq<RecordModel>) -> bool {
    forall|i: int|
        0 <= i < rs.len() ==> match (#[trigger] rs[i]).superseded_by {
            Some(c) => c != rs[i].code && spec_code_index(rs, c) is Some,
            None => true,
        }
}

/// Every used-by list is in ascending territory order.
pub open spec fn used_by_sorted(rs: Seq<RecordModel>) -> bool {
    forall|i: int|
        0 <= i < rs.len() ==> match (#[trigger] rs[i]).used_by {
            Some(l) => sorted_ids(l),
            None => true,
        }
}

/// Structural consistency of a generated registry's record sequence: the
/// invariants the generator validates, visible to every caller.
pub open spec fn valid_records(rs: Seq<RecordModel>) -> bool {
    &&& rs.len() > 0
    &&& records_ok(rs)
    &&& codes_unique(rs)
    &&& numerics_unique(rs)
    &&& supersessions_resolve(rs)
    &&& used_by_sorted(rs)
}

/// The record uses the territory.
pub open spec fn uses_territory(m: RecordModel, t: u16) -> bool {
    m.used_by matches Some(l) && l.contains(t)
}

/// Dense key of a three-letter code: base-26 value of its letters.
pub open spec fn spec_code_key(s: Seq<char>) -> int
    recommends
        is_code(s),
{
    (s[0] as u32 - 65) * 676 + (s[1] as u32 - 65) * 26 + (s[2] as u32 - 65)
}

/// Distinct codes have distinct keys.
pub proof fn lemma_code_key_injective(a: Seq<char>, b: Seq<char>)
    requires
        is_code(a),
        is_code(b),
        spec_code_key(a) == spec_code_key(b),
    ensures
        a == b,
{
    let a0 = a[0] as u32 as int;
    let a1 = a[1] as u32 as int;
    let a2 = a[2] as u32 as int;
    let b0 = b[0] as u32 as int;
    let b1 = b[1] as u32 as int;
    let b2 = b[2] as u32 as int;
    assert(65 <= a0 <= 90 && 65 <= a1 <= 90 && 65 <= a2 <= 90);
    assert(65 <= b0 <= 90 && 65 <= b1 <= 90 && 65 <= b2 <= 90);
    assert((a0 - 65) * 676 + (a1 - 65) * 26 + (a2 - 65) == (b0 - 65) * 676 + (b1 - 65) * 26 + (b2
        - 65));
    assert(a0 == b0 && a1 == b1 && a2 == b2);
    vstd::utf8::char_u32_cast(a[0], a[0] as u32);
    vstd::utf8::char_u32_cast(b[0], b[0] as u32);
    vstd::utf8::char_u32_cast(a[1], a[1] as u32);
    vstd::utf8::char_u32_cast(b[1], b[1] as u32);
    vstd::utf8::char_u32_cast(a[2], a[2] as u32);
    vstd::utf8::char_u32_cast(b[2], b[2] as u32);
    assert(a[0] == b[0] && a[1] == b[1] && a[2] == b[2]);
    assert(a =~= b);
}

/// A record before `i` shares record `i`'s code.
pub open spec fn dup_code_at(rs: Seq<RecordModel>, i: int) -> bool {
    exists|j: int| 0 <= j < i && (#[trigger] rs[j]).code == rs[i].code
}

/// A record before `i` shares record `i`'s numeric identifier.
pub open spec fn dup_num_at(rs: Seq<RecordModel>, i: int) -> bool {
    exists|j: int| 0 <= j < i && (#[trigger] rs[j]).numeric == rs[i].numeric
}

/// Record `i` supersedes itself or a code absent from the table.
pub open spec fn bad_supersession_at(rs: Seq<RecordModel>, i: int) -> bool {
    match rs[i].superseded_by {
        Some(c) => c == rs[i].code || spec_code_index(rs, c) is None,
        None => false,
    }
}

/// The first duplicate code or numeric identifier at or after `i`, scanning
/// forward; a duplicate code is reported over a duplicate numeric identifier
/// of the same record.
pub open spec fn spec_dup_scan(rs: Seq<RecordModel>, i: int) -> Option<BuildError>
    decreases rs.len() - i,
{
    if i < 0 || i >= rs.len() {
        None
    } else if dup_code_at(rs, i) {
        Some(BuildError::DuplicateCode { index: i as usize })
    } else if dup_num_at(rs, i) {
        Some(BuildError::DuplicateNumeric { index: i as usize })
    } else {
        spec_dup_scan(rs, i + 1)
    }
}

/// The first unresolved or self-referring supersession at or after `i`.
pub open spec fn spec_supersession_scan(rs: Seq<RecordModel>, i: int) -> Option<BuildError>
    decreases rs.len() - i,
{
    if i < 0 || i >= rs.len() {
        None
    } else if rs[i].superseded_by matches Some(c) && c == rs[i].code {
        Some(BuildError::SelfSupersession { index: i as usize })
    } else if rs[i].superseded_by matches Some(c) && spec_code_index(rs, c) is None {
        Some(BuildError::UnknownSupersession { index: i as usize })
    } else {
        spec_supersession_scan(rs, i + 1)
    }
}

pub proof fn lemma_dup_scan_skip(rs: Seq<RecordModel>, i: int)
    requires
        0 <= i <= rs.len(),
        forall|m: int| 0 <= m < i ==> !dup_code_at(rs, m) && !dup_num_at(rs, m),
    ensures
        spec_dup_scan(rs, 0) == spec_dup_scan(rs, i),
    decreases i,
{
    if i > 0 {
        lemma_dup_scan_skip(rs, i - 1);
    }
}

pub proof fn lemma_supersession_scan_skip(rs: Seq<RecordModel>, i: int)
    requires
        0 <= i <= rs.len(),
        forall|m: int| 0 <= m < i ==> !bad_supersession_at(rs, m),
    ensures
        spec_supersession_scan(rs, 0) == spec_supersession_scan(rs, i),
    decreases i,
{
    if i > 0 {
        lemma_supersession_scan_skip(rs, i - 1);
        assert(!bad_supersession_at(rs, i - 1));
        assert(spec_supersession_scan(rs, i - 1) == spec_supersession_scan(rs, i)) by {
            match rs[i - 1].superseded_by {
                Some(c) => {
                    assert(c != rs[i - 1].code);
                    assert(spec_code_index(rs, c) is Some);
                },
                None => {},
            }
        }
    }
}

/// Whether a record's code is on the selected-code list.
pub open spec fn subset_pred(codes: Seq<Seq<char>>) -> spec_fn(RecordModel) -> bool {
    |m: RecordModel| codes.contains(m.code)
}

/// The rows selected by the optional code list (default: all rows).
pub open spec fn spec_selected(rs: Seq<RecordModel>, subset: Option<Seq<Seq<char>>>) -> Seq<
    RecordModel,
> {
    match subset {
        None => rs,
        Some(codes) => rs.filter(subset_pred(codes)),
    }
}

/// A record with its used-by list normalized into ascending territory order.
pub open spec fn norm_rec(m: RecordModel) -> RecordModel {
    match m.used_by {
        Some(l) => RecordModel { used_by: Some(sort_ids_spec(l)), ..m },
        None => m,
    }
}

/// The effective record sequence the generator works from: the selected rows,
/// each with its used-by list sorted.
pub open spec fn spec_effective(rs: Seq<RecordModel>, subset: Option<Seq<Seq<char>>>) -> Seq<
    RecordModel,
> {
    spec_selected(rs, subset).map_values(|m: RecordModel| norm_rec(m))
}

/// The exact model of generation: the effective record sequence, or the
/// first structural failure — an empty effective table, then duplicate
/// scanning, then supersession scanning.
pub open spec fn spec_build(rs: Seq<RecordModel>, subset: Option<Seq<Seq<char>>>) -> Result<
    Seq<RecordModel>,
    BuildError,
> {
    let frs = spec_effective(rs, subset);
    if frs.len() == 0 {
        Err(BuildError::EmptyTable)
    } else {
        match spec_dup_scan(frs, 0) {
            Some(e) => Err(e),
            None => match spec_supersession_scan(frs, 0) {
                Some(e) => Err(e),
                None => Ok(frs),
            },
        }
    }
}

/// The view of the optional selected-code list.
pub open spec fn subset_view(subset: Option<&Vec<String>>) -> Option<Seq<Seq<char>>> {
    match subset {
        Some(v) => Some(v.deep_view()),
        None => None,
    }
}

/// The generated registry: the validated, normalized records in table order,
/// with a code-keyed table, a numeric-keyed table and an inverted
/// territory-to-record table, all fixed at generation time.
pub struct Registry {
    pub(crate) records: Vec<CurrencyRecord>,
    pub(crate) by_code: Vec<Option<usize>>,
    pub(crate) by_numeric: Vec<Option<usize>>,
    pub(crate) by_territory: Vec<Vec<usize>>,
}

impl View for Registry {
    type V = Seq<RecordModel>;

    closed spec fn view(&self) -> Seq<RecordModel> {
        self.records.deep_view()
    }
}

/// The inverted list for territory `t` holds exactly the records below
/// `upto` that use `t`, in ascending (table) order.
pub(crate) open spec fn tlist_ok(rs: Seq<RecordModel>, l: Seq<usize>, t: u16, upto: int) -> bool {
    &&& forall|k: int|
        0 <= k < l.len() ==> (#[trigger] l[k]) < upto && uses_territory(rs[l[k] as int], t)
    &&& forall|k1: int, k2: int| 0 <= k1 < k2 < l.len() ==> l[k1] < l[k2]
    &&& forall|j: int|
        0 <= j < upto && #[trigger] uses_territory(rs[j], t) ==> l.contains(j as usize)
}

/// The code-keyed table agrees with the records below `upto`.
pub(crate) open spec fn code_map_ok(rs: Seq<RecordModel>, m: Seq<Option<usize>>, upto: int) -> bool {
    &&& m.len() == 17576
    &&& forall|k: int|
        0 <= k < 17576 ==> match #[trigger] m[k] {
            Some(j) => j < upto && spec_code_key(rs[j as int].code) == k,
            None => true,
        }
    &&& forall|j: int|
        0 <= j < upto ==> m[spec_code_key((#[trigger] rs[j]).code)] == Some(j as usize)
}

/// The numeric-keyed table agrees with the records below `upto`.
pub(crate) open spec fn numeric_map_ok(rs: Seq<RecordModel>, m: Seq<Option<usize>>, upto: int) -> bool {
    &&& m.len() == 1000
    &&& forall|k: int|
        0 <= k < 1000 ==> match #[trigger] m[k] {
            Some(j) => j < upto && rs[j as int].numeric == k,
            None => true,
        }
    &&& forall|j: int| 0 <= j < upto ==> m[(#[trigger] rs[j]).numeric as int] == Some(j as usize)
}

/// The inverted territory table agrees with the records below `upto`.
pub(crate) open spec fn territory_map_ok(rs: Seq<RecordModel>, bt: Seq<Vec<usize>>, upto: int) -> bool {
    &&& bt.len() == 1000
    &&& forall|t: int| 0 <= t < 1000 ==> tlist_ok(rs, (#[trigger] bt[t])@, t as u16, upto)
}

/// No record below `i` repeats an earlier code or numeric identifier.
pub(crate) open spec fn no_dups_below(rs: Seq<RecordModel>, i: int) -> bool {
    forall|m: int| 0 <= m < i ==> !dup_code_at(rs, m) && !dup_num_at(rs, m)
}

/// No record below `i` has an unresolved or self-referring supersession.
pub(crate) open spec fn no_bad_supersessions_below(rs: Seq<RecordModel>, i: int) -> bool {
    forall|m: int| 0 <= m < i ==> !bad_supersession_at(rs, m)
}

impl Registry {
    /// The lookup tables agree with the record sequence.
    pub(crate) open spec fn maps_ok(self) -> bool {
        let rs = self.records.deep_view();
        &&& code_map_ok(rs, self.by_code@, rs.len() as int)
        &&& numeric_map_ok(rs, self.by_numeric@, rs.len() as int)
        &&& territory_map_ok(rs, self.by_territory@, rs.len() as int)
    }

    /// Well-formedness: the record sequence is structurally consistent and
    /// the lookup tables agree with it. Every registry that `build` returns
    /// is well-formed.
    pub closed spec fn wf(self) -> bool {
        valid_records(self@) && self.maps_ok()
    }

    /// What well-formedness discloses: the structural invariants of the
    /// record sequence.
    pub proof fn lemma_wf_valid(&self)
        requires
            self.wf(),
        ensures
            valid_records(self@),
    {
    }

    /// Crate-internal view of well-formedness for the lookup functions.
    pub(crate) proof fn lemma_wf_parts(&self)
        requires
            self.wf(),
        ensures
            valid_records(self@),
            self.maps_ok(),
            self@ == self.records.deep_view(),
    {
    }

    /// A currency of this registry: an index into its record sequence.
    pub open spec fn contains_currency(self, c: Currency) -> bool {
        0 <= c@ < self@.len()
    }
}

/// Dense key of a three-letter code, executable form.
pub(crate) fn code_key_exec(s: &str) -> (k: usize)
    requires
        is_code(s@),
    ensures
        k == spec_code_key(s@),
        k < 17576,
{
    let c0 = s.get_char(0) as u32;
    let c1 = s.get_char(1) as u32;
    let c2 = s.get_char(2) as u32;
    (((c0 - 65) * 676) + ((c1 - 65) * 26) + (c2 - 65)) as usize
}

/// Whether `code` occurs in the selected-code list.
fn contains_code(codes: &Vec<String>, code: &str) -> (r: bool)
    ensures
        r == codes.deep_view().contains(code@),
{
    let mut i: usize = 0;
    while i < codes.len()
        invariant
            0 <= i <= codes@.len(),
            forall|j: int| 0 <= j < i ==> codes.deep_view()[j] != code@,
        decreases codes@.len() - i,
    {
        proof {
            assert(codes.deep_view()[i as int] == codes@[i as int]@);
        }
        if str_eq(codes[i].as_str(), code) {
            proof {
                assert(codes.deep_view()[i as int] == code@);
            }
            return true;
        }
        i = i + 1;
    }
    proof {
        assert(codes.deep_view().len() == codes@.len());
        if codes.deep_view().contains(code@) {
            let j = choose|j: int|
                0 <= j < codes.deep_view().len() && codes.deep_view()[j] == code@;
            assert(false);
        }
    }
    false
}

/// Elements stay below the territory index bound across sorting.
proof fn lemma_sort_preserves_bound(l: Seq<u16>)
    requires
        forall|i: int| 0 <= i < l.len() ==> #[trigger] l[i] < 1000,
    ensures
        forall|i: int| 0 <= i < sort_ids_spec(l).len() ==> #[trigger] sort_ids_spec(l)[i] < 1000,
{
    broadcast use vstd::seq_lib::group_to_multiset_ensures;

    crate::sort::lemma_sort_ids_spec(l);
    let s = sort_ids_spec(l);
    assert forall|i: int| 0 <= i < s.len() implies #[trigger] s[i] < 1000 by {
        let x = s[i];
        assert(s.contains(x));
        assert(s.to_multiset().count(x) > 0);
        assert(l.to_multiset().count(x) > 0);
        assert(l.contains(x));
        let j = choose|j: int| 0 <= j < l.len() && l[j] == x;
        assert(l[j] < 1000);
    }
}

/// An element is in a pushed sequence exactly when it is the pushed element
/// or was already there.
proof fn lemma_push_contains<A>(s: Seq<A>, a: A, x: A)
    ensures
        s.push(a).contains(x) <==> (s.contains(x) || x == a),
{
    if s.contains(x) {
        let j = choose|j: int| 0 <= j < s.len() && s[j] == x;
        assert(s.push(a)[j] == x);
    }
    if x == a {
        assert(s.push(a)[s.len() as int] == x);
    }
    if s.push(a).contains(x) {
        let j = choose|j: int| 0 <= j < s.push(a).len() && s.push(a)[j] == x;
        if j < s.len() {
            assert(s[j] == x);
        }
    }
}

/// Selects the rows of the optional code list and sorts each used-by list:
/// produces the effective record sequence.
fn filter_normalize(records: Vec<CurrencyRecord>, subset: Option<&Vec<String>>) -> (r: Vec<
    CurrencyRecord,
>)
    requires
        records_ok(records.deep_view()),
    ensures
        r.deep_view() == spec_effective(records.deep_view(), subset_view(subset)),
        records_ok(r.deep_view()),
        used_by_sorted(r.deep_view()),
{
    let ghost orig = records.deep_view();
    let ghost sv = subset_view(subset);
    let mut rest = records;
    let mut out: Vec<CurrencyRecord> = Vec::new();
    let ghost mut k: int = 0;
    proof {
        reveal(Seq::filter);
        assert(rest.deep_view() =~= orig.skip(0));
        assert(orig.take(0) =~= Seq::<RecordModel>::empty());
        assert(spec_selected(orig.take(0), sv) =~= Seq::<RecordModel>::empty());
        assert(out.deep_view() =~= spec_effective(orig.take(0), sv));
    }
    while rest.len() > 0
        invariant
            0 <= k <= orig.len(),
            sv == subset_view(subset),
            records_ok(orig),
            rest.deep_view() == orig.skip(k),
            rest@.len() == orig.len() - k,
            out.deep_view() == spec_effective(orig.take(k), sv),
            records_ok(out.deep_view()),
            used_by_sorted(out.deep_view()),
        decreases rest@.len(),
    {
        let ghost old_rest = rest.deep_view();
        let ghost old_raw = rest@;
        let ghost old_out = out.deep_view();
        proof {
            assert(rest.deep_view()[0] == rest@[0]@);
        }
        let rec = rest.remove(0);
        let ghost m = orig[k];
        proof {
            assert(rec@ == m);
            assert(record_ok(m));
            assert forall|x: int| 0 <= x < rest@.len() implies rest.deep_view()[x] == orig.skip(
                k + 1,
            )[x] by {
                assert(rest.deep_view()[x] == rest@[x]@);
                assert(rest@[x] == old_raw[x + 1]);
                assert(old_rest[x + 1] == old_raw[x + 1]@);
                assert(old_rest[x + 1] == orig.skip(k)[x + 1]);
            }
            assert(rest.deep_view() =~= orig.skip(k + 1));
        }
        let keep: bool = match subset {
            None => true,
            Some(codes) => contains_code(codes, rec.code.as_str()),
        };
        if keep {
            let CurrencyRecord {
                code,
                numeric,
                name,
                symbol,
                subunit_symbol,
                exponent,
                used_by,
                is_fund,
                is_special,
                superseded_by,
            } = rec;
            let used_by: Option<Vec<u16>> = match used_by {
                Some(u) => {
                    let s = sort_ids(&u);
                    Some(s)
                },
                None => None,
            };
            let rec2 = CurrencyRecord {
                code,
                numeric,
                name,
                symbol,
                subunit_symbol,
                exponent,
                used_by,
                is_fund,
                is_special,
                superseded_by,
            };
            proof {
                assert(rec2@ =~= norm_rec(m));
                match m.used_by {
                    Some(l) => {
                        lemma_sort_preserves_bound(l);
                        crate::sort::lemma_sort_ids_spec(l);
                    },
                    None => {},
                }
                assert(record_ok(norm_rec(m)));
            }
            out.push(rec2);
            proof {
                assert(out.deep_view() =~= old_out.push(norm_rec(m)));
            }
        }
        proof {
            reveal(Seq::filter);
            assert(orig.take(k + 1).drop_last() =~= orig.take(k));
            assert(orig.take(k + 1).last() == m);
            match sv {
                None => {
                    assert(spec_selected(orig.take(k + 1), sv) == orig.take(k + 1));
                    assert(spec_effective(orig.take(k + 1), sv) =~= spec_effective(
                        orig.take(k),
                        sv,
                    ).push(norm_rec(m)));
                },
                Some(cs) => {
                    assert(subset matches Some(codes) && codes.deep_view() == cs);
                    assert(keep == cs.contains(m.code));
                    assert(keep == subset_pred(cs)(m));
                    if keep {
                        assert(spec_selected(orig.take(k + 1), sv) == spec_selected(
                            orig.take(k),
                            sv,
                        ).push(m));
                        assert(spec_effective(orig.take(k + 1), sv) =~= spec_effective(
                            orig.take(k),
                            sv,
                        ).push(norm_rec(m)));
                    } else {
                        assert(spec_selected(orig.take(k + 1), sv) == spec_selected(
                            orig.take(k),
                            sv,
                        ));
                        assert(spec_effective(orig.take(k + 1), sv) =~= spec_effective(
                            orig.take(k),
                            sv,
                        ));
                    }
                },
            }
            k = k + 1;
            assert(out.deep_view() == spec_effective(orig.take(k), sv));
        }
    }
    proof {
        assert(orig.take(orig.len() as int) =~= orig);
    }
    out
}

impl Registry {
    /// Generates the registry from a validated record sequence, optionally
    /// restricted to the rows whose codes are on the given list. Fails on an
    /// empty effective table, a duplicate code or numeric identifier, and an
    /// unresolved or self-referring supersession; no registry is produced on
    /// failure.
    pub fn build(records: Vec<CurrencyRecord>, subset: Option<&Vec<String>>) -> (r: Result<
        Registry,
        BuildError,
    >)
        requires
            records_ok(records.deep_view()),
        ensures
            match r {
                Ok(reg) => reg.wf() && spec_build(records.deep_view(), subset_view(subset))
                    == Ok::<Seq<RecordModel>, BuildError>(reg@),
                Err(e) => spec_build(records.deep_view(), subset_view(subset)) == Err::<
                    Seq<RecordModel>,
                    BuildError,
                >(e),
            },
    {
        let ghost orig = records.deep_view();
        let ghost sv = subset_view(subset);
        let recs = filter_normalize(records, subset);
        let ghost frs = recs.deep_view();
        if recs.len() == 0 {
            proof {
                assert(frs.len() == 0);
            }
            return Err(BuildError::EmptyTable);
        }
        let n = recs.len();
        let mut by_code: Vec<Option<usize>> = Vec::new();
        let mut f: usize = 0;
        while f < 17576
            invariant
                by_code@.len() == f,
                f <= 17576,
                forall|x: int| 0 <= x < f ==> (#[trigger] by_code@[x]) is None,
            decreases 17576 - f,
        {
            by_code.push(None);
            f = f + 1;
        }
        let mut by_numeric: Vec<Option<usize>> = Vec::new();
        let mut g: usize = 0;
        while g < 1000
            invariant
                by_numeric@.len() == g,
                g <= 1000,
                forall|x: int| 0 <= x < g ==> (#[trigger] by_numeric@[x]) is None,
            decreases 1000 - g,
        {
            by_numeric.push(None);
            g = g + 1;
        }
        let mut by_territory: Vec<Vec<usize>> = Vec::new();
        let mut h: usize = 0;
        while h < 1000
            invariant
                by_territory@.len() == h,
                h <= 1000,
                forall|t: int| 0 <= t < h ==> (#[trigger] by_territory@[t])@ =~= Seq::<
                    usize,
                >::empty(),
            decreases 1000 - h,
        {
            by_territory.push(Vec::new());
            h = h + 1;
        }
        // The three tables are filled one record at a time; a collision in a
        // keyed table is exactly a duplicate in the records seen so far.
        let mut i: usize = 0;
        while i < n
            invariant
                n == frs.len(),
                frs.len() > 0,
                recs.deep_view() == frs,
                orig == records.deep_view(),
                frs == spec_effective(orig, sv),
                sv == subset_view(subset),
                records_ok(frs),
                used_by_sorted(frs),
                0 <= i <= n,
                code_map_ok(frs, by_code@, i as int),
                numeric_map_ok(frs, by_numeric@, i as int),
                territory_map_ok(frs, by_territory@, i as int),
                no_dups_below(frs, i as int),
            decreases n - i,
        {
            proof {
                assert(recs.deep_view()[i as int] == recs@[i as int]@);
            }
            let key = code_key_exec(recs[i].code.as_str());
            if by_code[key].is_some() {
                proof {
                    let j = by_code@[key as int]->Some_0;
                    lemma_code_key_injective(frs[j as int].code, frs[i as int].code);
                    assert(dup_code_at(frs, i as int)) by {
                        assert(frs[j as int].code == frs[i as int].code && 0 <= j < i);
                    }
                    lemma_dup_scan_skip(frs, i as int);
                }
                return Err(BuildError::DuplicateCode { index: i });
            }
            proof {
                if dup_code_at(frs, i as int) {
                    let j = choose|j: int|
                        0 <= j < i && (#[trigger] frs[j]).code == frs[i as int].code;
                    assert(by_code@[spec_code_key(frs[j].code)] == Some(j as usize));
                    assert(false);
                }
            }
            by_code[key] = Some(i);
            let nk = recs[i].numeric as usize;
            if by_numeric[nk].is_some() {
                proof {
                    let j = by_numeric@[nk as int]->Some_0;
                    assert(dup_num_at(frs, i as int)) by {
                        assert(frs[j as int].numeric == frs[i as int].numeric && 0 <= j < i);
                    }
                    lemma_dup_scan_skip(frs, i as int);
                }
                return Err(BuildError::DuplicateNumeric { index: i });
            }
            proof {
                if dup_num_at(frs, i as int) {
                    let j = choose|j: int|
                        0 <= j < i && (#[trigger] frs[j]).numeric == frs[i as int].numeric;
                    assert(by_numeric@[frs[j].numeric as int] == Some(j as usize));
                    assert(false);
                }
            }
            by_numeric[nk] = Some(i);
            match &recs[i].used_by {
                Some(ids) => {
                    let ghost old_bt = by_territory@;
                    let m = ids.len();
                    let mut p: usize = 0;
                    while p < m
                        invariant
                            by_territory@.len() == 1000,
                            m == ids@.len(),
                            0 <= p <= m,
                            0 <= i < frs.len(),
                            frs[i as int].used_by == Some(ids@),
                            forall|x: int| 0 <= x < ids@.len() ==> #[trigger] ids@[x] < 1000,
                            old_bt.len() == 1000,
                            forall|t: int|
                                0 <= t < 1000 ==> tlist_ok(
                                    frs,
                                    (#[trigger] old_bt[t])@,
                                    t as u16,
                                    i as int,
                                ),
                            forall|t: int|
                                0 <= t < 1000 ==> (#[trigger] by_territory@[t])@ == (
                                if ids@.take(p as int).contains(t as u16) {
                                    old_bt[t]@.push(i)
                                } else {
                                    old_bt[t]@
                                }),
                        decreases m - p,
                    {
                        let t = ids[p] as usize;
                        let ghost tsel = ids@.take(p as int).contains(t as u16);
                        let ghost cur = by_territory@;
                        let mut l = by_territory.remove(t);
                        let ghost before = l@;
                        let ll = l.len();
                        if ll == 0 || l[ll - 1] != i {
                            proof {
                                if tsel {
                                    assert(before == old_bt[t as int]@.push(i));
                                    assert(before[before.len() - 1] == i);
                                    assert(false);
                                }
                            }
                            l.push(i);
                        } else {
                            proof {
                                if !tsel {
                                    assert(before == old_bt[t as int]@);
                                    assert(tlist_ok(frs, before, t as u16, i as int));
                                    assert(before[before.len() - 1] < i);
                                    assert(false);
                                }
                            }
                        }
                        let ghost after = l@;
                        by_territory.insert(t, l);
                        proof {
                            cur.remove_ensures(t as int);
                            let mid = cur.remove(t as int);
                            mid.insert_ensures(t as int, by_territory@[t as int]);
                            assert(by_territory@ == mid.insert(t as int, by_territory@[t as int]));
                            assert forall|x: int|
                                0 <= x < 1000 implies #[trigger] by_territory@[x] == cur.update(
                                t as int,
                                by_territory@[t as int],
                            )[x] by {
                                if x < t {
                                    assert(by_territory@[x] == mid[x]);
                                    assert(mid[x] == cur[x]);
                                } else if x > t {
                                    assert(by_territory@[x] == mid[x - 1]);
                                    assert(mid[x - 1] == cur[x]);
                                }
                            }
                            assert(by_territory@[t as int]@ == after);
                            if tsel {
                                assert(after == old_bt[t as int]@.push(i));
                            } else {
                                assert(before == old_bt[t as int]@);
                                assert(after == before.push(i));
                            }
                            assert(ids@.take(p + 1) =~= ids@.take(p as int).push(ids@[p as int]));
                            assert forall|t2: int| 0 <= t2 < 1000 implies (
                            #[trigger] by_territory@[t2])@ == (if ids@.take(p + 1).contains(
                                t2 as u16,
                            ) {
                                old_bt[t2]@.push(i)
                            } else {
                                old_bt[t2]@
                            }) by {
                                lemma_push_contains(
                                    ids@.take(p as int),
                                    ids@[p as int],
                                    t2 as u16,
                                );
                                if t2 != t {
                                    assert(by_territory@[t2] == cur[t2]);
                                    assert(ids@.take(p + 1).contains(t2 as u16) == ids@.take(
                                        p as int,
                                    ).contains(t2 as u16));
                                }
                            }
                        }
                        p = p + 1;
                    }
                    proof {
                        assert(ids@.take(m as int) =~= ids@);
                        assert forall|t: int| 0 <= t < 1000 implies tlist_ok(
                            frs,
                            (#[trigger] by_territory@[t])@,
                            t as u16,
                            i as int + 1,
                        ) by {
                            let old_l = old_bt[t]@;
                            let new_l = by_territory@[t]@;
                            if ids@.contains(t as u16) {
                                assert(new_l == old_l.push(i));
                                assert(uses_territory(frs[i as int], t as u16));
                                assert forall|j: int|
                                    0 <= j < i + 1 && #[trigger] uses_territory(
                                        frs[j],
                                        t as u16,
                                    ) implies new_l.contains(j as usize) by {
                                    lemma_push_contains(old_l, i, j as usize);
                                }
                            } else {
                                assert(new_l == old_l);
                                assert(!uses_territory(frs[i as int], t as u16));
                                assert forall|j: int|
                                    0 <= j < i + 1 && #[trigger] uses_territory(
                                        frs[j],
                                        t as u16,
                                    ) implies new_l.contains(j as usize) by {
                                    assert(j < i);
                                }
                            }
                        }
                    }
                },
                None => {
                    proof {
                        assert forall|t: int| 0 <= t < 1000 implies tlist_ok(
                            frs,
                            (#[trigger] by_territory@[t])@,
                            t as u16,
                            i as int + 1,
                        ) by {
                            assert(!uses_territory(frs[i as int], t as u16));
                            assert(tlist_ok(frs, by_territory@[t]@, t as u16, i as int));
                        }
                    }
                },
            }
            i = i + 1;
        }
        proof {
            assert(codes_unique(frs)) by {
                assert forall|a: int, b: int|
                    0 <= a < b < frs.len() implies (#[trigger] frs[a]).code != (
                #[trigger] frs[b]).code by {
                    if frs[a].code == frs[b].code {
                        assert(dup_code_at(frs, b));
                    }
                }
            }
            assert(numerics_unique(frs)) by {
                assert forall|a: int, b: int|
                    0 <= a < b < frs.len() implies (#[trigger] frs[a]).numeric != (
                #[trigger] frs[b]).numeric by {
                    if frs[a].numeric == frs[b].numeric {
                        assert(dup_num_at(frs, b));
                    }
                }
            }
        }
        // Supersession targets can point forward, so they are resolved against
        // the completed code table.
        let mut i: usize = 0;
        while i < n
            invariant
                n == frs.len(),
                frs.len() > 0,
                recs.deep_view() == frs,
                orig == records.deep_view(),
                frs == spec_effective(orig, sv),
                sv == subset_view(subset),
                records_ok(frs),
                used_by_sorted(frs),
                codes_unique(frs),
                numerics_unique(frs),
                no_dups_below(frs, n as int),
                0 <= i <= n,
                code_map_ok(frs, by_code@, n as int),
                numeric_map_ok(frs, by_numeric@, n as int),
                territory_map_ok(frs, by_territory@, n as int),
                no_bad_supersessions_below(frs, i as int),
            decreases n - i,
        {
            proof {
                assert(recs.deep_view()[i as int] == recs@[i as int]@);
            }
            match &recs[i].superseded_by {
                Some(c) => {
                    proof {
                        assert(frs[i as int].superseded_by == Some(c@));
                        assert(frs[i as int].code == recs@[i as int].code@);
                    }
                    if str_eq(c.as_str(), recs[i].code.as_str()) {
                        proof {
                            assert(bad_supersession_at(frs, i as int));
                            lemma_supersession_scan_skip(frs, i as int);
                            lemma_dup_scan_skip(frs, n as int);
                        }
                        return Err(BuildError::SelfSupersession { index: i });
                    }
                    let okc = check_code(c.as_str());
                    let resolved: bool = if okc {
                        let key = code_key_exec(c.as_str());
                        by_code[key].is_some()
                    } else {
                        false
                    };
                    proof {
                        lemma_code_index(frs, c@);
                        if resolved {
                            let key = spec_code_key(c@);
                            let j = by_code@[key]->Some_0;
                            lemma_code_key_injective(frs[j as int].code, c@);
                            if spec_code_index(frs, c@) is None {
                                assert(frs[j as int].code != c@);
                                assert(false);
                            }
                        } else {
                            if spec_code_index(frs, c@) is Some {
                                let j = spec_code_index(frs, c@)->Some_0;
                                assert(frs[j].code == c@);
                                assert(is_code(c@));
                                assert(by_code@[spec_code_key(frs[j].code)] == Some(j as usize));
                                assert(false);
                            }
                        }
                    }
                    if !resolved {
                        proof {
                            assert(bad_supersession_at(frs, i as int));
                            lemma_supersession_scan_skip(frs, i as int);
                            lemma_dup_scan_skip(frs, n as int);
                        }
                        return Err(BuildError::UnknownSupersession { index: i });
                    }
                    proof {
                        assert(!bad_supersession_at(frs, i as int));
                    }
                },
                None => {
                    proof {
                        assert(!bad_supersession_at(frs, i as int));
                    }
                },
            }
            i = i + 1;
        }
        let reg = Registry { records: recs, by_code, by_numeric, by_territory };
        proof {
            assert(reg@ == frs);
            assert(supersessions_resolve(frs)) by {
                assert forall|x: int| 0 <= x < frs.len() implies match (
                #[trigger] frs[x]).superseded_by {
                    Some(c) => c != frs[x].code && spec_code_index(frs, c) is Some,
                    None => true,
                } by {
                    assert(!bad_supersession_at(frs, x));
                }
            }
            assert(valid_records(frs));
            assert(reg.maps_ok());
            lemma_dup_scan_skip(frs, n as int);
            lemma_supersession_scan_skip(frs, n as int);
        }
        Ok(reg)
    }

    /// Loads and generates in one step: parses the source table, then builds
    /// the registry, optionally restricted to the rows whose codes are on the
    /// given list.
    pub fn from_table(input: &str, subset: Option<&Vec<String>>) -> (r: Result<
        Registry,
        BuildError,
    >)
        ensures
            match crate::parse::spec_parse_table(input@) {
                Err(e) => r matches Err(e2) && e2 == e,
                Ok(ms) => match spec_build(ms, subset_view(subset)) {
                    Ok(frs) => r matches Ok(reg) && reg.wf() && reg@ == frs,
                    Err(e) => r matches Err(e2) && e2 == e,
                },
            },
    {
        match crate::parse::parse_table(input) {
            Ok(recs) => Registry::build(recs, subset),
            Err(e) => Err(e),
        }
    }
}

} // verus!
