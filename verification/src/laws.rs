//! Laws of the generated registry, proved once for every well-formed
//! registry and every currency in it.

use vstd::prelude::*;

use crate::registry::{lemma_code_index_of, lemma_numeric_index_of, spec_code_index,
    spec_numeric_index, Currency, Registry};

verus! {

/// Round trip: looking a currency's own code or numeric identifier back up
/// finds exactly that currency. Together with the exact contracts of `code`,
/// `numeric`, `from_code` and `from_numeric`, this says
/// `from_code(code(x)) == Some(x)` and `from_numeric(numeric(x)) == Some(x)`.
pub proof fn lemma_round_trip(reg: &Registry, c: Currency)
    requires
        reg.wf(),
        reg.contains_currency(c),
    ensures
        spec_code_index(reg@, reg@[c@].code) == Some(c@),
        spec_numeric_index(reg@, reg@[c@].numeric) == Some(c@),
{
    reg.lemma_wf_valid();
    lemma_code_index_of(reg@, c@);
    lemma_numeric_index_of(reg@, c@);
}

/// Uniqueness: no two currencies of a registry share a code, and none share
/// a numeric identifier.
pub proof fn lemma_uniqueness(reg: &Registry, a: Currency, b: Currency)
    requires
        reg.wf(),
        reg.contains_currency(a),
        reg.contains_currency(b),
        a@ != b@,
    ensures
        reg@[a@].code != reg@[b@].code,
        reg@[a@].numeric != reg@[b@].numeric,
{
    reg.lemma_wf_valid();
}

/// Supersession is a single hop: any result `s` meeting `is_superseded`'s
/// contract and any result `l` meeting `latest`'s contract for the same
/// currency agree — if `s` is `Some(y)` then `l == y`, and if `s` is `None`
/// then `l == c`.
pub proof fn lemma_supersession_single_hop(reg: &Registry, c: Currency, s: Option<Currency>, l: Currency)
    requires
        reg.wf(),
        reg.contains_currency(c),
        match reg@[c@].superseded_by {
            Some(code) => s matches Some(y) && reg.contains_currency(y) && spec_code_index(
                reg@,
                code,
            ) == Some(y@),
            None => s is None,
        },
        reg.contains_currency(l),
        match reg@[c@].superseded_by {
            Some(code) => spec_code_index(reg@, code) == Some(l@),
            None => l == c,
        },
    ensures
        match s {
            Some(y) => l == y,
            None => l == c,
        },
{
    match s {
        Some(y) => {
            assert(y@ == l@);
            assert(y.index == l.index);
        },
        None => {},
    }
}

} // verus!
