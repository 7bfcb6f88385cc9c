//! The blake2b-256 digest that anchors witness entities and derives account
//! ids. The digest itself is computed by an outside crate; its value is
//! named by an uninterpreted function, so everything the validators conclude
//! from a digest goes through that one name.

use vstd::prelude::*;

verus! {

use crate::byteseq::copy_range;

/// The blake2b-256 digest (32 octets, personalised for this chain) of a byte
/// string. Deterministic in its argument; no contract states its value.
pub uninterp spec fn blake2b256_of(data: Seq<u8>) -> Seq<u8>;

/// Relies on `blake2b_ref::Blake2bBuilder`: a 32-byte blake2b digest of
/// `data` under the chain's fixed personalisation, a function of `data`
/// alone.
#[verifier::external_body]
fn blake2b_256_call(data: &[u8]) -> (r: Vec<u8>)
    ensures
        r@ == blake2b256_of(data@),
        r@.len() == 32,
{
    let mut out = [0u8; 32];
    let mut hasher = blake2b_ref::Blake2bBuilder::new(32).personal(b"ckb-default-hash").build();
    hasher.update(data);
    hasher.finalize(&mut out);
    out.to_vec()
}

/// The blake2b-256 digest of `data`.
pub fn blake2b_256(data: &[u8]) -> (r: Vec<u8>)
    ensures
        r@ == blake2b256_of(data@),
        r@.len() == 32,
{
    blake2b_256_call(data)
}

/// The account id belonging to an account name: the first 20 octets of its
/// digest.
pub open spec fn spec_account_id_of(account: Seq<u8>) -> Seq<u8> {
    blake2b256_of(account).subrange(0, 20)
}

/// Derives the 20-byte account id of an account name.
pub fn account_id_of(account: &[u8]) -> (r: Vec<u8>)
    ensures
        r@ == spec_account_id_of(account@),
        r@.len() == 20,
{
    let digest = blake2b_256(account);
    copy_range(digest.as_slice(), 0, 20)
}

} // verus!
