//! The ledger's script hash.

use ckb_std::ckb_types::packed;
use ckb_std::ckb_types::prelude::{Builder, Entity};
use vstd::prelude::*;

verus! {

/// The hash under which the ledger knows the script with these three
/// fields: the digest of the script's serialised form.
pub uninterp spec fn script_hash(code_hash: Seq<u8>, hash_type: u8, args: Seq<u8>) -> Seq<u8>;

/// Hashes a script as the ledger does.
///
/// Trusted, not proved: the body builds a `ckb_std::ckb_types::packed::Script`
/// from the three fields and returns what its `calc_script_hash` computes,
/// the 32-byte digest of the script's serialised form. The contract claims
/// one thing of it: that the digest depends on the three fields and on
/// nothing else, so that it can be named [`script_hash`].
#[verifier::external_body]
pub(crate) fn calc_script_hash(code_hash: &[u8; 32], hash_type: u8, args: &[u8]) -> (digest: [u8; 32])
    ensures
        digest@ == script_hash(code_hash@, hash_type, args@),
{
    let script = packed::Script::new_builder()
        .code_hash(*code_hash)
        .hash_type(hash_type)
        .args(args)
        .build();
    script.calc_script_hash().into()
}

} // verus!
