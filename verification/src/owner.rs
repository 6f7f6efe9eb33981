//! Owner authentication: an input must be locked by the token's owner.

use vstd::prelude::*;

use crate::bytes::bytes_equal;
use crate::context::{Context, ContextView};
use crate::error::Error;

verus! {

/// What direct authentication returns: the lock hash `lock` itself must
/// lock one of the inputs.
pub open spec fn direct_lock_outcome(ctx: ContextView, lock: Seq<u8>) -> Result<bool, Error> {
    if ctx.input_lock_hashes.contains(lock) {
        Ok(true)
    } else {
        Err(Error::OwnerLockScriptNotExist)
    }
}

/// What authentication against the companion at position `index` returns.
/// The owner is the lock hash that the companion's type script carries as
/// its arguments.
pub open spec fn owner_outcome(ctx: ContextView, index: int) -> Result<bool, Error> {
    if !(0 <= index < ctx.output_types.len()) {
        Err(Error::IndexOutOfBound)
    } else {
        match ctx.output_types[index] {
            None => Err(Error::ItemMissing),
            Some(t) => if ctx.input_lock_hashes.contains(t.script.args) {
                Ok(true)
            } else {
                Err(Error::OwnerLockScriptNotMatch)
            },
        }
    }
}

/// Whether some input is locked by `lock`. Only membership counts: neither
/// the order of the inputs nor a repeated lock hash changes the answer.
pub fn input_lock_present(ctx: &Context, lock: &[u8]) -> (present: bool)
    ensures
        present == ctx@.input_lock_hashes.contains(lock@),
{
    let ghost hashes = ctx@.input_lock_hashes;
    let mut i: usize = 0;
    while i < ctx.input_lock_hashes.len()
        invariant
            i <= ctx.input_lock_hashes.len(),
            hashes == ctx@.input_lock_hashes,
            hashes.len() == ctx.input_lock_hashes.len(),
            forall|j: int| 0 <= j < i ==> hashes[j] != lock@,
        decreases ctx.input_lock_hashes.len() - i,
    {
        if bytes_equal(lock, ctx.input_lock_hashes[i].as_slice()) {
            assert(hashes[i as int] == lock@);
            return true;
        }
        i = i + 1;
    }
    false
}

/// Authenticates directly: `args` is the owner's lock hash, and one of the
/// inputs must be locked by it. Fails with `OwnerLockScriptNotExist`
/// exactly when none is.
pub fn check_owner_lock_exist(ctx: &Context, args: &[u8]) -> (r: Result<bool, Error>)
    ensures
        r == direct_lock_outcome(ctx@, args@),
{
    if input_lock_present(ctx, args) {
        Ok(true)
    } else {
        Err(Error::OwnerLockScriptNotExist)
    }
}

/// Authenticates against the companion cell at output `sudt_index`.
///
/// Returns `Ok(true)` exactly when that output has a type script whose
/// arguments are the lock hash of some input. Fails with
/// `OwnerLockScriptNotMatch` when it has a type script but no input is
/// locked by its arguments, with `IndexOutOfBound` when there is no such
/// output, and with `ItemMissing` when the output has no type script.
pub fn check_input_exist_owner_lock(ctx: &Context, sudt_index: usize) -> (r: Result<bool, Error>)
    ensures
        r == owner_outcome(ctx@, sudt_index as int),
{
    if sudt_index >= ctx.output_types.len() {
        return Err(Error::IndexOutOfBound);
    }
    match &ctx.output_types[sudt_index] {
        None => Err(Error::ItemMissing),
        Some(t) => {
            if input_lock_present(ctx, t.script.args.as_slice()) {
                Ok(true)
            } else {
                Err(Error::OwnerLockScriptNotMatch)
            }
        },
    }
}

} // verus!
