//! Resolution of territory names into the external territory enumeration.
//!
//! The registry does not define territories; it references the closed set
//! that the `iso_country` crate defines, through each territory's numeric
//! identifier. The identifier doubles as the territory's rank in that
//! enumeration's ordering, which is what `used_by` lists are sorted by.

use vstd::prelude::*;

verus! {

/// What the external territory enumeration resolves an ISO 3166 alpha-2 code
/// to: the territory's numeric identifier, a function of the characters
/// alone, or nothing for an unknown code.
pub uninterp spec fn territory_of(s: Seq<char>) -> Option<u16>;

/// Relies on `iso_country::Country`'s `FromStr`, an exact binary search of
/// the crate's alpha-2 table, and on the enum's discriminants, which are the
/// ISO 3166 numeric codes, all below 1000.
#[verifier::external_body]
pub(crate) fn territory_lookup(alpha2: &str) -> (r: Option<u16>)
    ensures
        r == territory_of(alpha2@),
        r matches Some(t) ==> t < 1000,
{
    match alpha2.parse::<iso_country::Country>() {
        Ok(c) => Some(c as u16),
        Err(_) => None,
    }
}

} // verus!
