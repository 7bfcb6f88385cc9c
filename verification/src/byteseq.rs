//! Small executable helpers over byte strings: equality, lexicographic
//! order (the big-endian octet order used for 20-byte account ids), and
//! copying a sub-range out of a slice.

use vstd::prelude::*;

verus! {

use vstd::slice::slice_subrange;
use vstd::slice::slice_to_vec;

/// Strict lexicographic order on byte strings; on equal-length strings this
/// is the order of the values read as big-endian integers.
pub open spec fn lex_lt(a: Seq<u8>, b: Seq<u8>) -> bool
    decreases a.len(),
{
    if b.len() == 0 {
        false
    } else if a.len() == 0 {
        true
    } else if a[0] < b[0] {
        true
    } else if a[0] > b[0] {
        false
    } else {
        lex_lt(a.subrange(1, a.len() as int), b.subrange(1, b.len() as int))
    }
}

/// Whether some element of `set` equals `x`.
pub open spec fn contains_bytes(set: Seq<Seq<u8>>, x: Seq<u8>) -> bool {
    exists|i: int| 0 <= i < set.len() && set[i] == x
}

/// The byte strings held by a sequence of byte vectors.
pub open spec fn views_of(s: Seq<Vec<u8>>) -> Seq<Seq<u8>> {
    Seq::new(s.len(), |i: int| s[i]@)
}

/// Byte-for-byte equality of two slices.
pub fn bytes_eq(a: &[u8], b: &[u8]) -> (r: bool)
    ensures
        r == (a@ == b@),
{
    if a.len() != b.len() {
        assert(a@.len() != b@.len());
        return false;
    }
    let n: usize = a.len();
    let mut i: usize = 0;
    while i < n
        invariant
            n == a@.len() == b@.len(),
            i <= n,
            forall|j: int| 0 <= j < i ==> a@[j] == b@[j],
        decreases n - i,
    {
        if a[i] != b[i] {
            return false;
        }
        i += 1;
    }
    proof {
        assert(a@ =~= b@);
    }
    true
}

/// Decides `lex_lt(a@, b@)`.
pub fn bytes_lt(a: &[u8], b: &[u8]) -> (r: bool)
    ensures
        r == lex_lt(a@, b@),
    decreases a@.len(),
{
    if b.len() == 0 {
        false
    } else if a.len() == 0 {
        true
    } else if a[0] < b[0] {
        true
    } else if a[0] > b[0] {
        false
    } else {
        let a2 = slice_subrange(a, 1, a.len());
        let b2 = slice_subrange(b, 1, b.len());
        bytes_lt(a2, b2)
    }
}

/// Whether some element of `set` equals `x`, byte for byte.
pub fn any_bytes_eq(set: &Vec<Vec<u8>>, x: &[u8]) -> (r: bool)
    ensures
        r == contains_bytes(views_of(set@), x@),
{
    let n: usize = set.len();
    let mut i: usize = 0;
    while i < n
        invariant
            n == set@.len(),
            i <= n,
            forall|j: int| 0 <= j < i ==> views_of(set@)[j] != x@,
        decreases n - i,
    {
        if bytes_eq(set[i].as_slice(), x) {
            assert(views_of(set@)[i as int] == x@);
            return true;
        }
        assert(views_of(set@)[i as int] != x@);
        i += 1;
    }
    false
}

/// Copies `data[start .. end]` into a fresh vector.
pub fn copy_range(data: &[u8], start: usize, end: usize) -> (r: Vec<u8>)
    requires
        start <= end <= data@.len(),
    ensures
        r@ == data@.subrange(start as int, end as int),
{
    let s = slice_subrange(data, start, end);
    slice_to_vec(s)
}

} // verus!
