//! The emitter registry: which emitter a selector names, which one is active
//! after a run of operations, and what each operation is turned into.

use vstd::prelude::*;
use vstd::utf8::encode_utf8;
use crate::intel_asm_writer::{listing, IntelAsmWriter};
use crate::operation::{Operation, OperationModel, OperationType, OutputType};

verus! {

/// The emitters that a selector can name.
#[derive(Clone, Copy, PartialEq, Eq, Structural, Debug)]
pub enum Emitter {
    /// x86-64 assembly in Intel syntax.
    IntelAsm,
    /// Emits nothing: what an unknown selector installs.
    Silent,
}

/// The selector of the Intel assembly emitter.
pub open spec fn intel_asm_selector() -> Seq<char> {
    "intel_asm"@
}

/// The emitter that the selector `token` names.
pub open spec fn emitter_named(token: Seq<char>) -> Emitter {
    if token == intel_asm_selector() {
        Emitter::IntelAsm
    } else {
        Emitter::Silent
    }
}

/// Executable form of [`emitter_named`].
pub fn select_emitter(token: &str) -> (r: Emitter)
    ensures
        r == emitter_named(token@),
{
    let known = String::from_str("intel_asm");
    let given = String::from_str(token);
    if given == known {
        Emitter::IntelAsm
    } else {
        Emitter::Silent
    }
}

/// Whether `op` is a directive that selects an emitter.
pub open spec fn is_directive(op: OperationModel) -> bool {
    op.op == OperationType::SetWriter && op.args.len() >= 1
}

/// The active emitter after `op`, given the one before it.
pub open spec fn next_active(active: Emitter, op: OperationModel) -> Emitter {
    if is_directive(op) {
        emitter_named(op.args[0])
    } else {
        active
    }
}

/// The emitter that turns an operation into text: the forced one where the
/// output type names one, the active one otherwise.
pub open spec fn effective(output_type: OutputType, active: Emitter) -> Emitter {
    match output_type {
        OutputType::IntelAsm => Emitter::IntelAsm,
        OutputType::Dynamic => active,
    }
}

/// The bytes that `emitter` makes of `op`.
pub open spec fn emitted(emitter: Emitter, op: OperationModel, label: nat) -> Seq<u8> {
    match emitter {
        Emitter::IntelAsm => encode_utf8(listing(op, label)),
        Emitter::Silent => Seq::empty(),
    }
}

/// The active emitter after the first `n` operations of `ops`. At the start
/// it is the Intel assembly emitter.
pub open spec fn active_after(ops: Seq<OperationModel>, n: nat) -> Emitter
    decreases n,
{
    if n == 0 {
        Emitter::IntelAsm
    } else {
        next_active(active_after(ops, (n - 1) as nat), ops[n - 1])
    }
}

/// The emitter that turns operation `i` of `ops` into text. A directive
/// counts from its own position on.
pub open spec fn emitter_at(ops: Seq<OperationModel>, output_type: OutputType, i: int) -> Emitter {
    effective(output_type, active_after(ops, (i + 1) as nat))
}

/// The buffers written for `ops`, one for each operation, with `labels[i]`
/// numbering the loop of operation `i`.
pub open spec fn written(ops: Seq<OperationModel>, output_type: OutputType, labels: Seq<u32>)
    -> Seq<Seq<u8>> {
    Seq::new(
        ops.len(),
        |i: int| emitted(emitter_at(ops, output_type, i), ops[i], labels[i] as nat),
    )
}

/// One step of writing: updates the active emitter by `op` and emits `op`.
/// Returns the active emitter for the operations that follow, and the bytes.
pub fn write_step(active: Emitter, op: &Operation, output_type: OutputType, label: u32) -> (r: (
    Emitter,
    Vec<u8>,
))
    requires
        effective(output_type, next_active(active, op@)) == Emitter::IntelAsm
            ==> op@.well_formed(),
    ensures
        r.0 == next_active(active, op@),
        r.1@ == emitted(effective(output_type, r.0), op@, label as nat),
{
    let next = match op.op {
        OperationType::SetWriter => if op.args.len() >= 1 {
            select_emitter(op.args[0].as_str())
        } else {
            active
        },
        _ => active,
    };
    let emitter = match output_type {
        OutputType::IntelAsm => Emitter::IntelAsm,
        OutputType::Dynamic => next,
    };
    let bytes = match emitter {
        Emitter::IntelAsm => IntelAsmWriter::generate_labelled(op, label),
        Emitter::Silent => Vec::new(),
    };
    (next, bytes)
}

/// With a forced emitter every operation goes to that emitter, whatever the
/// directives say.
pub proof fn lemma_forced_emitter_takes_all(ops: Seq<OperationModel>, labels: Seq<u32>, i: int)
    requires
        0 <= i < ops.len(),
    ensures
        written(ops, OutputType::IntelAsm, labels)[i] == emitted(
            Emitter::IntelAsm,
            ops[i],
            labels[i] as nat,
        ),
{
}

/// The active emitter is the one that the last directive named.
pub proof fn lemma_active_is_last_directive(ops: Seq<OperationModel>, d: int, n: nat)
    requires
        0 <= d < n <= ops.len(),
        is_directive(ops[d]),
        forall|k: int| d < k < n ==> !is_directive(#[trigger] ops[k]),
    ensures
        active_after(ops, n) == emitter_named(ops[d].args[0]),
    decreases n,
{
    if n > d + 1 {
        lemma_active_is_last_directive(ops, d, (n - 1) as nat);
    }
}

/// Before the first directive the Intel assembly emitter is active.
pub proof fn lemma_active_without_directive(ops: Seq<OperationModel>, n: nat)
    requires
        n <= ops.len(),
        forall|k: int| 0 <= k < n ==> !is_directive(#[trigger] ops[k]),
    ensures
        active_after(ops, n) == Emitter::IntelAsm,
    decreases n,
{
    if n > 0 {
        lemma_active_without_directive(ops, (n - 1) as nat);
    }
}

/// In dynamic mode an operation goes to the emitter that the last directive
/// at or before it named: a block of operations between two directives goes
/// to the emitter of the first of the two.
pub proof fn lemma_dynamic_follows_directive(
    ops: Seq<OperationModel>,
    labels: Seq<u32>,
    d: int,
    i: int,
)
    requires
        0 <= d <= i < ops.len(),
        is_directive(ops[d]),
        forall|k: int| d < k <= i ==> !is_directive(#[trigger] ops[k]),
    ensures
        written(ops, OutputType::Dynamic, labels)[i] == emitted(
            emitter_named(ops[d].args[0]),
            ops[i],
            labels[i] as nat,
        ),
{
    lemma_active_is_last_directive(ops, d, (i + 1) as nat);
}

/// In dynamic mode an operation before the first directive goes to the
/// Intel assembly emitter.
pub proof fn lemma_dynamic_default(ops: Seq<OperationModel>, labels: Seq<u32>, i: int)
    requires
        0 <= i < ops.len(),
        forall|k: int| 0 <= k <= i ==> !is_directive(#[trigger] ops[k]),
    ensures
        written(ops, OutputType::Dynamic, labels)[i] == emitted(
            Emitter::IntelAsm,
            ops[i],
            labels[i] as nat,
        ),
{
    lemma_active_without_directive(ops, (i + 1) as nat);
}

} // verus!
