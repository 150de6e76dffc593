//! Canonical form of domain names.
//!
//! Cache keys compare names after ASCII lower-casing and trailing-dot
//! normalisation: `"Example.COM"` and `"example.com."` key the same entry.

use vstd::prelude::*;

verus! {

/// ASCII lower-casing of one byte.
pub open spec fn lower_byte_spec(b: u8) -> u8 {
    if 65 <= b && b <= 90 {
        (b + 32) as u8
    } else {
        b
    }
}

/// The canonical form of a name: every byte lower-cased, and a trailing
/// dot appended when the name does not already end in one.
pub open spec fn canon_spec(s: Seq<u8>) -> Seq<u8> {
    let low = s.map_values(|b: u8| lower_byte_spec(b));
    if low.len() > 0 && low.last() == 46 {
        low
    } else {
        low.push(46)
    }
}

/// ASCII lower-casing of one byte.
pub fn lower_byte(b: u8) -> (r: u8)
    ensures
        r == lower_byte_spec(b),
{
    if 65 <= b && b <= 90 {
        b + 32
    } else {
        b
    }
}

/// Brings a name into canonical form: lower-cased, with a trailing dot.
pub fn canonical_name(s: &Vec<u8>) -> (r: Vec<u8>)
    ensures
        r@ == canon_spec(s@),
{
    let ghost low = s@.map_values(|b: u8| lower_byte_spec(b));
    let mut out: Vec<u8> = Vec::new();
    let mut i: usize = 0;
    while i < s.len()
        invariant
            i <= s.len(),
            low == s@.map_values(|b: u8| lower_byte_spec(b)),
            out@ == low.take(i as int),
        decreases s.len() - i,
    {
        out.push(lower_byte(s[i]));
        i = i + 1;
        assert(out@ =~= low.take(i as int));
    }
    assert(out@ =~= low);
    if out.len() == 0 || out[out.len() - 1] != 46 {
        out.push(46);
    }
    out
}

/// Canonicalisation is idempotent: a canonical name is its own canonical form.
pub proof fn lemma_canon_idempotent(s: Seq<u8>)
    ensures
        canon_spec(canon_spec(s)) == canon_spec(s),
{
    let c = canon_spec(s);
    assert forall|i: int| 0 <= i < c.len() implies lower_byte_spec(c[i]) == c[i] by {
        if i < s.map_values(|b: u8| lower_byte_spec(b)).len() {
            assert(c[i] == lower_byte_spec(s[i]));
        }
    }
    assert(c.map_values(|b: u8| lower_byte_spec(b)) =~= c);
    assert(c.len() > 0 && c.last() == 46);
}

} // verus!
