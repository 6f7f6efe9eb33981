//! Failure outcomes and the exit codes that stand for them.

use vstd::prelude::*;

verus! {

/// Why a verification pass rejected the transaction.
///
/// The first four variants report a lookup that the host could not serve;
/// the others are the rules of this script.
#[derive(Clone, Copy, Debug, PartialEq, Eq, Structural)]
pub enum Error {
    /// A referenced cell does not exist.
    IndexOutOfBound,
    /// A referenced field of a cell is absent.
    ItemMissing,
    /// A buffer handed to the host was too short.
    LengthNotEnough,
    /// The host returned data that does not decode.
    Encoding,
    /// No input is locked by the lock hash given as script argument.
    OwnerLockScriptNotExist,
    /// No output carries a type script whose hash is the script argument.
    InfoTypeArgsNotMatch,
    /// No input is locked by the owner that the companion cell declares.
    OwnerLockScriptNotMatch,
    /// The payload of the info cell is not a well-formed record.
    WrongDataStruct,
}

impl Error {
    /// The exit code of an error, as a mathematical integer.
    pub open spec fn spec_code(self) -> int {
        match self {
            Error::IndexOutOfBound => 1,
            Error::ItemMissing => 2,
            Error::LengthNotEnough => 3,
            Error::Encoding => 4,
            Error::OwnerLockScriptNotExist => 5,
            Error::InfoTypeArgsNotMatch => 5,
            Error::OwnerLockScriptNotMatch => 6,
            Error::WrongDataStruct => 7,
        }
    }

    /// The exit code that reports this error to the host.
    ///
    /// Code 5 stands for two errors; passes under one configuration never
    /// return both.
    pub fn code(&self) -> (c: i8)
        ensures
            c == self.spec_code(),
            1 <= c <= 7,
    {
        match self {
            Error::IndexOutOfBound => 1,
            Error::ItemMissing => 2,
            Error::LengthNotEnough => 3,
            Error::Encoding => 4,
            Error::OwnerLockScriptNotExist => 5,
            Error::InfoTypeArgsNotMatch => 5,
            Error::OwnerLockScriptNotMatch => 6,
            Error::WrongDataStruct => 7,
        }
    }
}

/// The exit code of a verification pass, as a mathematical integer: zero
/// for acceptance, the error's code for a rejection.
pub open spec fn spec_exit_code(outcome: Result<(), Error>) -> int {
    match outcome {
        Ok(_) => 0,
        Err(e) => e.spec_code(),
    }
}

/// The exit code that reports the outcome of a pass to the host. It is zero
/// exactly for acceptance.
pub fn exit_code(outcome: &Result<(), Error>) -> (c: i8)
    ensures
        c == spec_exit_code(*outcome),
        c == 0 <==> *outcome is Ok,
{
    match outcome {
        Ok(_) => 0,
        Err(e) => e.code(),
    }
}

} // verus!
