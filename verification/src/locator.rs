//! Finding the companion cell: the output whose type script the running
//! script's argument names.

use vstd::prelude::*;

use crate::bytes::bytes_equal;
use crate::context::{Context, TypeScriptView};
use crate::error::Error;
use crate::hash::{calc_script_hash, script_hash};

verus! {

/// The identity of an output's type script as the ledger reports it: the
/// recorded type hash. A cell without a type script has none.
pub open spec fn reported_identity(slot: Option<TypeScriptView>) -> Option<Seq<u8>> {
    match slot {
        Some(t) => Some(t.hash),
        None => None,
    }
}

/// The identity of an output's type script as computed from the script
/// itself: the hash of its three fields. A cell without a type script has
/// none.
pub open spec fn computed_identity(slot: Option<TypeScriptView>) -> Option<Seq<u8>> {
    match slot {
        Some(t) => Some(script_hash(t.script.code_hash, t.script.hash_type, t.script.args)),
        None => None,
    }
}

/// The reported identity of every output, in output order.
pub open spec fn reported_identities(outputs: Seq<Option<TypeScriptView>>) -> Seq<Option<Seq<u8>>> {
    Seq::new(outputs.len(), |i: int| reported_identity(outputs[i]))
}

/// The computed identity of every output, in output order.
pub open spec fn computed_identities(outputs: Seq<Option<TypeScriptView>>) -> Seq<Option<Seq<u8>>> {
    Seq::new(outputs.len(), |i: int| computed_identity(outputs[i]))
}

/// Position `i` holds the identity `args`, and no earlier position does.
pub open spec fn is_first_match(args: Seq<u8>, identities: Seq<Option<Seq<u8>>>, i: int) -> bool {
    &&& 0 <= i < identities.len()
    &&& identities[i] == Some(args)
    &&& forall|j: int| 0 <= j < i ==> identities[j] != Some(args)
}

/// No position holds the identity `args`.
pub open spec fn no_match(args: Seq<u8>, identities: Seq<Option<Seq<u8>>>) -> bool {
    forall|j: int| 0 <= j < identities.len() ==> identities[j] != Some(args)
}

/// The first position that holds the identity `args`, if there is one.
pub open spec fn first_match(args: Seq<u8>, identities: Seq<Option<Seq<u8>>>) -> Option<int>
    decreases identities.len(),
{
    if identities.len() == 0 {
        None
    } else {
        match first_match(args, identities.drop_last()) {
            Some(i) => Some(i),
            None => if identities.last() == Some(args) {
                Some(identities.len() - 1)
            } else {
                None
            },
        }
    }
}

/// `first_match` returns the first matching position, and `None` exactly
/// when nothing matches.
pub proof fn lemma_first_match(args: Seq<u8>, identities: Seq<Option<Seq<u8>>>)
    ensures
        first_match(args, identities) matches Some(i) ==> is_first_match(args, identities, i),
        first_match(args, identities) is None <==> no_match(args, identities),
        forall|i: int|
            is_first_match(args, identities, i) ==> first_match(args, identities) == Some(i),
    decreases identities.len(),
{
    if identities.len() > 0 {
        let front = identities.drop_last();
        lemma_first_match(args, front);
        assert forall|j: int| 0 <= j < front.len() implies front[j] == identities[j] by {}
        match first_match(args, front) {
            Some(i) => {
                assert(is_first_match(args, front, i));
                assert(identities[i] == Some(args));
            },
            None => {
                assert(no_match(args, front));
            },
        }
        assert forall|i: int| is_first_match(args, identities, i) implies first_match(
            args,
            identities,
        ) == Some(i) by {
            if i < front.len() {
                assert(is_first_match(args, front, i));
            } else {
                assert(no_match(args, front));
            }
        }
    }
}

/// Locates the companion cell by the type hash that the ledger reports.
///
/// Scans the outputs in order and returns the index of the first whose type
/// hash is `args`, byte for byte. A cell without a type script never
/// matches. Fails with `InfoTypeArgsNotMatch` exactly when no output
/// matches; where several match, the first one wins.
pub fn check_sudt_type_hash_equal_sudt_info_args(ctx: &Context, args: &[u8]) -> (r: Result<
    usize,
    Error,
>)
    ensures
        r is Err <==> no_match(args@, reported_identities(ctx@.output_types)),
        r matches Ok(i) ==> is_first_match(args@, reported_identities(ctx@.output_types), i as int),
        r matches Ok(i) ==> first_match(args@, reported_identities(ctx@.output_types)) == Some(
            i as int,
        ),
        r matches Err(e) ==> e == Error::InfoTypeArgsNotMatch,
{
    let ghost identities = reported_identities(ctx@.output_types);
    let mut i: usize = 0;
    while i < ctx.output_types.len()
        invariant
            i <= ctx.output_types.len(),
            identities == reported_identities(ctx@.output_types),
            identities.len() == ctx.output_types.len(),
            forall|j: int| 0 <= j < i ==> identities[j] != Some(args@),
        decreases ctx.output_types.len() - i,
    {
        match &ctx.output_types[i] {
            Some(t) => {
                if bytes_equal(args, t.hash.as_slice()) {
                    proof {
                        assert(identities[i as int] == Some(args@));
                        lemma_first_match(args@, identities);
                    }
                    return Ok(i);
                }
            },
            None => {},
        }
        i = i + 1;
    }
    Err(Error::InfoTypeArgsNotMatch)
}

/// Locates the companion cell by hashing each output's type script.
///
/// Scans the outputs in order, hashes the type script of each cell that has
/// one, once, and returns the index of the first whose hash is `args`. A
/// cell without a type script never matches. Where no output matches, the
/// search has run past the last output, which is reported as the host
/// reports a cell that does not exist: `IndexOutOfBound`.
pub fn locate_by_descriptor_hash(ctx: &Context, args: &[u8]) -> (r: Result<usize, Error>)
    ensures
        r is Err <==> no_match(args@, computed_identities(ctx@.output_types)),
        r matches Ok(i) ==> is_first_match(args@, computed_identities(ctx@.output_types), i as int),
        r matches Ok(i) ==> first_match(args@, computed_identities(ctx@.output_types)) == Some(
            i as int,
        ),
        r matches Err(e) ==> e == Error::IndexOutOfBound,
{
    let ghost identities = computed_identities(ctx@.output_types);
    let mut i: usize = 0;
    while i < ctx.output_types.len()
        invariant
            i <= ctx.output_types.len(),
            identities == computed_identities(ctx@.output_types),
            identities.len() == ctx.output_types.len(),
            forall|j: int| 0 <= j < i ==> identities[j] != Some(args@),
        decreases ctx.output_types.len() - i,
    {
        match &ctx.output_types[i] {
            Some(t) => {
                let digest = calc_script_hash(
                    &t.script.code_hash,
                    t.script.hash_type,
                    t.script.args.as_slice(),
                );
                if bytes_equal(args, digest.as_slice()) {
                    proof {
                        assert(identities[i as int] == Some(args@));
                        lemma_first_match(args@, identities);
                    }
                    return Ok(i);
                }
            },
            None => {},
        }
        i = i + 1;
    }
    Err(Error::IndexOutOfBound)
}

} // verus!
