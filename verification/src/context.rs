//! The read-only snapshot that one verification pass works on.

use vstd::prelude::*;

verus! {

/// A script: a reference to its code and an argument byte string.
#[derive(Clone, Debug)]
pub struct Script {
    /// The hash that identifies the code.
    pub code_hash: [u8; 32],
    /// How `code_hash` is to be read.
    pub hash_type: u8,
    /// The arguments of the script.
    pub args: Vec<u8>,
}

/// The type script of a cell, with the hash under which the ledger knows it.
#[derive(Clone, Debug)]
pub struct TypeScript {
    /// The hash of the script, as the ledger reports it.
    pub hash: [u8; 32],
    /// The script itself.
    pub script: Script,
}

/// What a verification pass reads of the transaction and of the script
/// that is running.
#[derive(Clone, Debug)]
pub struct Context {
    /// The arguments of the running script.
    pub args: Vec<u8>,
    /// The lock hash of each input cell, in input order.
    pub input_lock_hashes: Vec<[u8; 32]>,
    /// The type script of each output cell, in output order; `None` for a
    /// cell without one.
    pub output_types: Vec<Option<TypeScript>>,
    /// The data of the first output cell that carries the running script;
    /// `None` where no output carries it.
    pub payload: Option<Vec<u8>>,
}

/// The mathematical content of a [`Script`].
pub struct ScriptView {
    pub code_hash: Seq<u8>,
    pub hash_type: u8,
    pub args: Seq<u8>,
}

/// The mathematical content of a [`TypeScript`].
pub struct TypeScriptView {
    pub hash: Seq<u8>,
    pub script: ScriptView,
}

/// The mathematical content of a [`Context`].
pub struct ContextView {
    pub args: Seq<u8>,
    pub input_lock_hashes: Seq<Seq<u8>>,
    pub output_types: Seq<Option<TypeScriptView>>,
    pub payload: Option<Seq<u8>>,
}

impl View for Script {
    type V = ScriptView;

    open spec fn view(&self) -> ScriptView {
        ScriptView { code_hash: self.code_hash@, hash_type: self.hash_type, args: self.args@ }
    }
}

impl View for TypeScript {
    type V = TypeScriptView;

    open spec fn view(&self) -> TypeScriptView {
        TypeScriptView { hash: self.hash@, script: self.script@ }
    }
}

/// The content of an output's type slot.
pub open spec fn type_slot_view(slot: Option<TypeScript>) -> Option<TypeScriptView> {
    match slot {
        Some(t) => Some(t@),
        None => None,
    }
}

impl View for Context {
    type V = ContextView;

    open spec fn view(&self) -> ContextView {
        ContextView {
            args: self.args@,
            input_lock_hashes: Seq::new(
                self.input_lock_hashes@.len(),
                |i: int| self.input_lock_hashes@[i]@,
            ),
            output_types: Seq::new(
                self.output_types@.len(),
                |i: int| type_slot_view(self.output_types@[i]),
            ),
            payload: match self.payload {
                Some(data) => Some(data@),
                None => None,
            },
        }
    }
}

} // verus!
