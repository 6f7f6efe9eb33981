//! The verification pass: locate the companion, authenticate the owner,
//! validate the payload; the first failure ends the pass.

use vstd::prelude::*;

use crate::context::{Context, ContextView};
use crate::error::Error;
use crate::hash::script_hash;
use crate::locator::{
    check_sudt_type_hash_equal_sudt_info_args, computed_identities, first_match, is_first_match,
    lemma_first_match, locate_by_descriptor_hash, no_match, reported_identities,
};
use crate::owner::{check_input_exist_owner_lock, check_owner_lock_exist};
use crate::payload::{is_record, well_formed};

verus! {

/// How the running script's argument is read.
#[derive(Clone, Copy, Debug, PartialEq, Eq, Structural)]
pub enum Strategy {
    /// The argument is the owner's lock hash; there is no companion cell.
    DirectLock,
    /// The argument is the type hash that the ledger reports for the
    /// companion cell.
    TypeHash,
    /// The argument is the hash of the companion cell's type script, which
    /// the pass computes itself.
    DescriptorHash,
}

/// One deployed form of the script: a strategy, with or without the
/// payload check.
#[derive(Clone, Copy, Debug, PartialEq, Eq, Structural)]
pub struct Config {
    pub strategy: Strategy,
    pub validate_payload: bool,
}

/// The identity of every output's type script under a strategy that has a
/// companion cell.
pub open spec fn identities(strategy: Strategy, ctx: ContextView) -> Seq<Option<Seq<u8>>> {
    match strategy {
        Strategy::DescriptorHash => computed_identities(ctx.output_types),
        _ => reported_identities(ctx.output_types),
    }
}

/// The error that reports a companion cell that cannot be found.
pub open spec fn companion_missing(strategy: Strategy) -> Error {
    match strategy {
        Strategy::DescriptorHash => Error::IndexOutOfBound,
        _ => Error::InfoTypeArgsNotMatch,
    }
}

/// The error that reports an owner who locks none of the inputs.
pub open spec fn owner_missing(strategy: Strategy) -> Error {
    match strategy {
        Strategy::DirectLock => Error::OwnerLockScriptNotExist,
        _ => Error::OwnerLockScriptNotMatch,
    }
}

/// The position of the companion cell: the first output whose identity is
/// the script argument. The direct strategy has no companion.
pub open spec fn companion(strategy: Strategy, ctx: ContextView) -> Option<int> {
    match strategy {
        Strategy::DirectLock => None,
        _ => first_match(ctx.args, identities(strategy, ctx)),
    }
}

/// The lock hash that must lock an input: the script argument itself under
/// the direct strategy, else the arguments of the companion's type script.
/// There is none where the companion cannot be found.
pub open spec fn expected_owner(strategy: Strategy, ctx: ContextView) -> Option<Seq<u8>> {
    match strategy {
        Strategy::DirectLock => Some(ctx.args),
        _ => match companion(strategy, ctx) {
            Some(i) => match ctx.output_types[i] {
                Some(t) => Some(t.script.args),
                None => None,
            },
            None => None,
        },
    }
}

/// The first two stages: find the owner, then look for the owner's lock
/// among the inputs.
pub open spec fn authentication(strategy: Strategy, ctx: ContextView) -> Result<(), Error> {
    match expected_owner(strategy, ctx) {
        None => Err(companion_missing(strategy)),
        Some(owner) => if ctx.input_lock_hashes.contains(owner) {
            Ok(())
        } else {
            Err(owner_missing(strategy))
        },
    }
}

/// The last stage: the payload of the info cell must be a record. A pass
/// that is configured without it accepts every payload, and a missing info
/// cell is reported as the host reports it.
pub open spec fn payload_stage(validate: bool, payload: Option<Seq<u8>>) -> Result<(), Error> {
    if !validate {
        Ok(())
    } else {
        match payload {
            None => Err(Error::IndexOutOfBound),
            Some(data) => if well_formed(data) {
                Ok(())
            } else {
                Err(Error::WrongDataStruct)
            },
        }
    }
}

/// The outcome of a verification pass. It is a function of the
/// configuration and of the snapshot's content, and of nothing else.
pub open spec fn outcome(config: Config, ctx: ContextView) -> Result<(), Error> {
    match authentication(config.strategy, ctx) {
        Err(e) => Err(e),
        Ok(_) => payload_stage(config.validate_payload, ctx.payload),
    }
}

impl Config {
    /// The first form: direct authentication, no payload check.
    pub fn direct_lock() -> (c: Config)
        ensures
            c == (Config { strategy: Strategy::DirectLock, validate_payload: false }),
    {
        Config { strategy: Strategy::DirectLock, validate_payload: false }
    }

    /// The second form: companion by reported type hash, no payload check.
    pub fn type_hash() -> (c: Config)
        ensures
            c == (Config { strategy: Strategy::TypeHash, validate_payload: false }),
    {
        Config { strategy: Strategy::TypeHash, validate_payload: false }
    }

    /// The third form: companion by computed script hash, no payload check.
    pub fn descriptor_hash() -> (c: Config)
        ensures
            c == (Config { strategy: Strategy::DescriptorHash, validate_payload: false }),
    {
        Config { strategy: Strategy::DescriptorHash, validate_payload: false }
    }

    /// The complete form: companion by reported type hash, with the payload
    /// check.
    pub fn complete() -> (c: Config)
        ensures
            c == (Config { strategy: Strategy::TypeHash, validate_payload: true }),
    {
        Config { strategy: Strategy::TypeHash, validate_payload: true }
    }
}

/// Runs the first two stages of a pass: finds the owner and looks for an
/// input under the owner's lock.
///
/// Under the direct strategy the script argument is the owner. Under the
/// other two the companion cell is located first, and a companion that
/// cannot be found ends the pass before any input is looked at.
pub fn authenticate(strategy: Strategy, ctx: &Context) -> (r: Result<(), Error>)
    ensures
        r == authentication(strategy, ctx@),
{
    let args = ctx.args.as_slice();
    let located = match strategy {
        Strategy::DirectLock => {
            return match check_owner_lock_exist(ctx, args) {
                Ok(_) => Ok(()),
                Err(e) => Err(e),
            };
        },
        Strategy::TypeHash => check_sudt_type_hash_equal_sudt_info_args(ctx, args),
        Strategy::DescriptorHash => locate_by_descriptor_hash(ctx, args),
    };
    proof {
        lemma_first_match(ctx@.args, identities(strategy, ctx@));
    }
    match located {
        Err(e) => Err(e),
        Ok(sudt_index) => match check_input_exist_owner_lock(ctx, sudt_index) {
            Ok(_) => Ok(()),
            Err(e) => Err(e),
        },
    }
}

/// Runs one verification pass over the snapshot.
///
/// The stages run in order and the first failure is the result: the
/// companion cell is located, the owner is authenticated, and, where the
/// configuration asks for it, the payload is validated. The snapshot is
/// only read, so a second pass over it returns the same outcome.
pub fn verify(config: &Config, ctx: &Context) -> (r: Result<(), Error>)
    ensures
        r == outcome(*config, ctx@),
{
    match authenticate(config.strategy, ctx) {
        Err(e) => {
            return Err(e);
        },
        Ok(_) => {},
    }
    if !config.validate_payload {
        return Ok(());
    }
    match &ctx.payload {
        None => Err(Error::IndexOutOfBound),
        Some(data) => {
            if is_record(data.as_slice()) {
                Ok(())
            } else {
                Err(Error::WrongDataStruct)
            }
        },
    }
}

/// A pass under a companion strategy rejects with `OwnerLockScriptNotMatch`
/// whenever the companion cell is found and no input is locked by the owner
/// it declares, whatever else the transaction holds and whether or not the
/// payload is checked.
pub proof fn lemma_owner_absent_rejects(config: Config, ctx: ContextView, i: int)
    requires
        config.strategy != Strategy::DirectLock,
        is_first_match(ctx.args, identities(config.strategy, ctx), i),
        ctx.output_types[i] matches Some(t) && !ctx.input_lock_hashes.contains(t.script.args),
    ensures
        outcome(config, ctx) == Err::<(), Error>(Error::OwnerLockScriptNotMatch),
{
    lemma_first_match(ctx.args, identities(config.strategy, ctx));
}

/// A pass under the direct strategy rejects with `OwnerLockScriptNotExist`
/// whenever no input is locked by the script argument.
pub proof fn lemma_direct_owner_absent_rejects(config: Config, ctx: ContextView)
    requires
        config.strategy == Strategy::DirectLock,
        !ctx.input_lock_hashes.contains(ctx.args),
    ensures
        outcome(config, ctx) == Err::<(), Error>(Error::OwnerLockScriptNotExist),
{
}

/// A pass rejects at the first stage whenever no output has the identity
/// that the script argument names: with `InfoTypeArgsNotMatch` where the
/// identity is the reported type hash, with `IndexOutOfBound` where it is
/// the computed script hash. Authentication does not come into it: the
/// outcome is the same for every list of inputs and for every payload.
pub proof fn lemma_companion_absent_rejects(config: Config, ctx: ContextView)
    requires
        config.strategy != Strategy::DirectLock,
        no_match(ctx.args, identities(config.strategy, ctx)),
    ensures
        config.strategy == Strategy::TypeHash ==> outcome(config, ctx) == Err::<(), Error>(
            Error::InfoTypeArgsNotMatch,
        ),
        config.strategy == Strategy::DescriptorHash ==> outcome(config, ctx) == Err::<(), Error>(
            Error::IndexOutOfBound,
        ),
        forall|inputs: Seq<Seq<u8>>, payload: Option<Seq<u8>>|
            #[trigger] outcome(
                config,
                (ContextView {
                    args: ctx.args,
                    input_lock_hashes: inputs,
                    output_types: ctx.output_types,
                    payload,
                }),
            ) == outcome(config, ctx),
{
    lemma_first_match(ctx.args, identities(config.strategy, ctx));
    assert forall|inputs: Seq<Seq<u8>>, payload: Option<Seq<u8>>|
        #[trigger] outcome(
            config,
            (ContextView {
                args: ctx.args,
                input_lock_hashes: inputs,
                output_types: ctx.output_types,
                payload,
            }),
        ) == outcome(config, ctx) by {
        let other = ContextView {
            args: ctx.args,
            input_lock_hashes: inputs,
            output_types: ctx.output_types,
            payload,
        };
        assert(identities(config.strategy, other) == identities(config.strategy, ctx));
    }
}

/// A pass that checks the payload and gets past authentication rejects
/// with `WrongDataStruct` whenever the payload is no record.
pub proof fn lemma_malformed_payload_rejects(config: Config, ctx: ContextView, data: Seq<u8>)
    requires
        config.validate_payload,
        authentication(config.strategy, ctx) is Ok,
        ctx.payload == Some(data),
        !well_formed(data),
    ensures
        outcome(config, ctx) == Err::<(), Error>(Error::WrongDataStruct),
{
}

/// A pass accepts exactly when the owner is known, locks an input, and the
/// payload, where it is checked, is a record.
pub proof fn lemma_acceptance(config: Config, ctx: ContextView)
    ensures
        outcome(config, ctx) is Ok <==> {
            &&& expected_owner(config.strategy, ctx) matches Some(owner)
                && ctx.input_lock_hashes.contains(owner)
            &&& config.validate_payload ==> (ctx.payload matches Some(data) && well_formed(data))
        },
{
}

/// Authentication asks only which lock hashes occur among the inputs: two
/// snapshots that differ in nothing but the order and the repetition of
/// their input lock hashes have the same outcome.
pub proof fn lemma_inputs_count_as_set(config: Config, a: ContextView, b: ContextView)
    requires
        a.args == b.args,
        a.output_types == b.output_types,
        a.payload == b.payload,
        a.input_lock_hashes.to_set() == b.input_lock_hashes.to_set(),
    ensures
        outcome(config, a) == outcome(config, b),
{
    assert(identities(config.strategy, a) == identities(config.strategy, b));
    assert(expected_owner(config.strategy, a) == expected_owner(config.strategy, b));
    match expected_owner(config.strategy, a) {
        Some(owner) => {
            assert(a.input_lock_hashes.contains(owner) <==> a.input_lock_hashes.to_set().contains(
                owner,
            ));
            assert(b.input_lock_hashes.contains(owner) <==> b.input_lock_hashes.to_set().contains(
                owner,
            ));
        },
        None => {},
    }
}

/// The ledger's record agrees with the scripts: the type hash recorded for
/// each output is the hash of that output's type script.
pub open spec fn hashes_recorded_faithfully(ctx: ContextView) -> bool {
    forall|i: int|
        0 <= i < ctx.output_types.len() ==> (#[trigger] ctx.output_types[i] matches Some(t)
            ==> t.hash == script_hash(t.script.code_hash, t.script.hash_type, t.script.args))
}

/// Where the ledger's record agrees with the scripts, the two companion
/// strategies find the same companion and the same owner, and accept the
/// same snapshots; they differ only in the error for a missing companion.
pub proof fn lemma_companion_strategies_agree(ctx: ContextView, validate_payload: bool)
    ensures
        hashes_recorded_faithfully(ctx) ==> {
            &&& companion(Strategy::TypeHash, ctx) == companion(Strategy::DescriptorHash, ctx)
            &&& expected_owner(Strategy::TypeHash, ctx) == expected_owner(
                Strategy::DescriptorHash,
                ctx,
            )
            &&& outcome(Config { strategy: Strategy::TypeHash, validate_payload }, ctx) is Ok
                <==> outcome(
                Config { strategy: Strategy::DescriptorHash, validate_payload },
                ctx,
            ) is Ok
        },
{
    if hashes_recorded_faithfully(ctx) {
        assert(reported_identities(ctx.output_types) =~= computed_identities(ctx.output_types));
    }
}

/// Verification keeps no state: two snapshots with the same content have
/// the same outcome, so a pass run again over an unchanged snapshot
/// returns what the first pass returned.
pub proof fn lemma_repeatable(config: Config, first: Context, second: Context)
    requires
        first@ == second@,
    ensures
        outcome(config, first@) == outcome(config, second@),
{
}

/// Within one configuration the exit codes tell the errors apart: two
/// different errors that passes under the same configuration return have
/// different codes.
pub proof fn lemma_codes_distinct(config: Config, a: ContextView, b: ContextView)
    requires
        outcome(config, a) is Err,
        outcome(config, b) is Err,
        outcome(config, a) != outcome(config, b),
    ensures
        outcome(config, a)->Err_0.spec_code() != outcome(config, b)->Err_0.spec_code(),
{
}

} // verus!
