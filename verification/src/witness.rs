//! Witness handling: the envelope around an entity, and the hash anchoring
//! of an entity to its cell. A cell's first 32 data octets must be the
//! blake2b-256 digest of the witness entity it refers to.

use vstd::prelude::*;

verus! {

use vstd::bytes::spec_u32_from_le_bytes;
use vstd::bytes::u32_from_le_bytes;
use vstd::slice::slice_subrange;

use crate::byteseq::bytes_eq;
use crate::byteseq::copy_range;
use crate::error::ErrorCode;
use crate::hash::blake2b256_of;
use crate::hash::blake2b_256;
use crate::model::Cell;
use crate::model::CellV;

/// The three magic octets every witness starts with, `das`.
pub open spec fn witness_magic() -> Seq<u8> {
    seq![100u8, 97u8, 115u8]
}

/// Reads a witness envelope `magic[3] || data_type[u32 LE] || entity`,
/// yielding the data type and the entity bytes.
pub open spec fn p_envelope(w: Seq<u8>) -> Option<(u32, Seq<u8>)> {
    if w.len() >= 7 && w.subrange(0, 3) == witness_magic() {
        Option::Some((spec_u32_from_le_bytes(w.subrange(3, 7)), w.subrange(7, w.len() as int)))
    } else {
        Option::None
    }
}

/// The entity of a cell's witness, provided the witness is present, its
/// envelope is sound, and its entity's digest equals the first 32 octets of
/// the cell's data.
pub open spec fn spec_verify_and_get(c: CellV) -> Result<Seq<u8>, ErrorCode> {
    match c.witness {
        Option::None => Result::Err(ErrorCode::WitnessEntityDecodingError),
        Option::Some(w) => match p_envelope(w) {
            Option::None => Result::Err(ErrorCode::WitnessEntityDecodingError),
            Option::Some((data_type, entity)) => if c.data.len() >= 32 && blake2b256_of(entity)
                == c.data.subrange(0, 32) {
                Result::Ok(entity)
            } else {
                Result::Err(ErrorCode::WitnessEntityDecodingError)
            },
        },
    }
}

/// Parses a witness envelope.
pub fn parse_envelope(w: &[u8]) -> (r: Option<(u32, Vec<u8>)>)
    ensures
        match r {
            Option::Some(x) => p_envelope(w@) == Option::Some((x.0, x.1@)),
            Option::None => p_envelope(w@) is None,
        },
{
    let len: usize = w.len();
    if len < 7 {
        return Option::None;
    }
    if !(w[0] == 100 && w[1] == 97 && w[2] == 115) {
        proof {
            assert(w@.subrange(0, 3) != witness_magic());
        }
        return Option::None;
    }
    proof {
        assert(w@.subrange(0, 3) =~= witness_magic());
    }
    let dt = u32_from_le_bytes(slice_subrange(w, 3, 7));
    let entity = copy_range(w, 7, len);
    Option::Some((dt, entity))
}

/// Returns the cell's witness entity after checking its hash anchor,
/// exactly as `spec_verify_and_get` reads it.
pub fn verify_and_get(c: &Cell) -> (r: Result<Vec<u8>, ErrorCode>)
    ensures
        match r {
            Result::Ok(v) => spec_verify_and_get(c@) == Result::<Seq<u8>, ErrorCode>::Ok(v@),
            Result::Err(e) => spec_verify_and_get(c@) == Result::<Seq<u8>, ErrorCode>::Err(e),
        },
{
    match &c.witness {
        Option::None => Result::Err(ErrorCode::WitnessEntityDecodingError),
        Option::Some(w) => match parse_envelope(w.as_slice()) {
            Option::None => Result::Err(ErrorCode::WitnessEntityDecodingError),
            Option::Some((_data_type, entity)) => {
                if c.data.len() < 32 {
                    return Result::Err(ErrorCode::WitnessEntityDecodingError);
                }
                let digest = blake2b_256(entity.as_slice());
                let anchor = slice_subrange(c.data.as_slice(), 0, 32);
                if bytes_eq(digest.as_slice(), anchor) {
                    Result::Ok(entity)
                } else {
                    Result::Err(ErrorCode::WitnessEntityDecodingError)
                }
            },
        },
    }
}

} // verus!
