//! The action names a transaction's action witness may carry. The external
//! ABI is the raw byte string; the dispatchers compare it literally.

use vstd::prelude::*;

verus! {

/// The octets of `apply_register`.
pub open spec fn action_apply_register() -> Seq<u8> {
    seq![97u8, 112u8, 112u8, 108u8, 121u8, 95u8, 114u8, 101u8, 103u8, 105u8, 115u8, 116u8, 101u8, 114u8]
}

/// The octets of `pre_register`.
pub open spec fn action_pre_register() -> Seq<u8> {
    seq![112u8, 114u8, 101u8, 95u8, 114u8, 101u8, 103u8, 105u8, 115u8, 116u8, 101u8, 114u8]
}

/// The octets of `propose`.
pub open spec fn action_propose() -> Seq<u8> {
    seq![112u8, 114u8, 111u8, 112u8, 111u8, 115u8, 101u8]
}

/// The octets of `extend_proposal`.
pub open spec fn action_extend_proposal() -> Seq<u8> {
    seq![101u8, 120u8, 116u8, 101u8, 110u8, 100u8, 95u8, 112u8, 114u8, 111u8, 112u8, 111u8, 115u8, 97u8, 108u8]
}

/// The octets of `confirm_proposal`.
pub open spec fn action_confirm_proposal() -> Seq<u8> {
    seq![99u8, 111u8, 110u8, 102u8, 105u8, 114u8, 109u8, 95u8, 112u8, 114u8, 111u8, 112u8, 111u8, 115u8, 97u8, 108u8]
}

/// The octets of `recycle_proposal`.
pub open spec fn action_recycle_proposal() -> Seq<u8> {
    seq![114u8, 101u8, 99u8, 121u8, 99u8, 108u8, 101u8, 95u8, 112u8, 114u8, 111u8, 112u8, 111u8, 115u8, 97u8, 108u8]
}

/// Builds the byte string of `apply_register`.
pub fn action_apply_register_bytes() -> (r: Vec<u8>)
    ensures
        r@ == action_apply_register(),
{
    let v: Vec<u8> = vec![97, 112, 112, 108, 121, 95, 114, 101, 103, 105, 115, 116, 101, 114];
    proof {
        assert(v@ =~= action_apply_register());
    }
    v
}

/// Builds the byte string of `pre_register`.
pub fn action_pre_register_bytes() -> (r: Vec<u8>)
    ensures
        r@ == action_pre_register(),
{
    let v: Vec<u8> = vec![112, 114, 101, 95, 114, 101, 103, 105, 115, 116, 101, 114];
    proof {
        assert(v@ =~= action_pre_register());
    }
    v
}

/// Builds the byte string of `propose`.
pub fn action_propose_bytes() -> (r: Vec<u8>)
    ensures
        r@ == action_propose(),
{
    let v: Vec<u8> = vec![112, 114, 111, 112, 111, 115, 101];
    proof {
        assert(v@ =~= action_propose());
    }
    v
}

/// Builds the byte string of `extend_proposal`.
pub fn action_extend_proposal_bytes() -> (r: Vec<u8>)
    ensures
        r@ == action_extend_proposal(),
{
    let v: Vec<u8> = vec![101, 120, 116, 101, 110, 100, 95, 112, 114, 111, 112, 111, 115, 97, 108];
    proof {
        assert(v@ =~= action_extend_proposal());
    }
    v
}

/// Builds the byte string of `confirm_proposal`.
pub fn action_confirm_proposal_bytes() -> (r: Vec<u8>)
    ensures
        r@ == action_confirm_proposal(),
{
    let v: Vec<u8> = vec![
        99,
        111,
        110,
        102,
        105,
        114,
        109,
        95,
        112,
        114,
        111,
        112,
        111,
        115,
        97,
        108,
    ];
    proof {
        assert(v@ =~= action_confirm_proposal());
    }
    v
}

/// Builds the byte string of `recycle_proposal`.
pub fn action_recycle_proposal_bytes() -> (r: Vec<u8>)
    ensures
        r@ == action_recycle_proposal(),
{
    let v: Vec<u8> = vec![
        114,
        101,
        99,
        121,
        99,
        108,
        101,
        95,
        112,
        114,
        111,
        112,
        111,
        115,
        97,
        108,
    ];
    proof {
        assert(v@ =~= action_recycle_proposal());
    }
    v
}

} // verus!
