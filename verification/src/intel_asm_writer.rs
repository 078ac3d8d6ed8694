//! The emitter for x86-64 assembly in Intel syntax.

use vstd::prelude::*;
use vstd::utf8::encode_utf8;
use crate::operation::{Operation, OperationModel, OperationType};
use crate::text::{
    decimal, lemma_deep_view_push, lines_of, pad_left, pad_right, push_decimal,
    push_padded_left, push_padded_right, split_lines,
};

verus! {

/// The column at which the comment of an emitted line begins.
pub const COMMENT_COLUMN: usize = 60;

/// The width in which the line number of a comment is right-aligned.
pub const LINE_NUMBER_WIDTH: usize = 3;

/// The smallest number that a loop label is made of.
pub const LABEL_MIN: u32 = 2147483647;

/// The number below which every loop label lies.
pub const LABEL_END: u32 = 4294967295;

/// The emitter for x86-64 assembly in Intel syntax.
pub struct IntelAsmWriter {}

/// The assembly text of one operation, before comments are added. `label`
/// numbers the loop of a range read and is not used otherwise.
pub open spec fn template(op: OperationModel, label: nat) -> Seq<char> {
    match op.op {
        OperationType::Move => "     mov "@ + op.args[0] + ", "@ + op.args[1],
        OperationType::FunctionStart => op.args[0] + ":"@,
        OperationType::FunctionEnd => "     ret"@,
        OperationType::SetStartFunction => "  global _start \n _start: jmp "@ + op.args[0],
        OperationType::FunctionEnter => "    call "@ + op.args[0],
        OperationType::Add => "     add "@ + op.args[0] + ", "@ + op.args[1],
        OperationType::Subtract => "     sub "@ + op.args[0] + ", "@ + op.args[1],
        OperationType::Multiply => "     mul "@ + op.args[0] + ", "@ + op.args[1],
        OperationType::Divide => "     div "@ + op.args[0] + ", "@ + op.args[1],
        OperationType::TextSection => " section .text"@,
        OperationType::DataSection => " section .data"@,
        OperationType::UninitializedDataSection => " section .bss"@,
        OperationType::ExitProcess => "     mov rax, 60\n     mov rdi, "@ + op.args[0]
            + "\n syscall"@,
        OperationType::SetWriter => Seq::empty(),
        OperationType::NoOp => Seq::empty(),
        OperationType::PushToStack => "    push "@ + op.args[0],
        OperationType::PopFromStack => "     pop "@ + op.args[0],
        OperationType::ReadFromMemory => "     mov "@ + op.args[1] + ", ["@ + op.args[0] + "]"@,
        OperationType::WriteToMemory => "     mov ["@ + op.args[1] + "], "@ + op.args[0],
        OperationType::DefineVariable => op.args[0] + ": d"@ + op.args[1] + " "@ + op.args[2],
        OperationType::DefineUninitVariable => op.args[0] + ": res"@ + op.args[1] + " 1"@,
        OperationType::RunInterrupt => "     int "@ + op.args[0] + "h"@,
        OperationType::ReadFromMemoryRange => "\n     push rdx\n     push cx\n     push rax\n     mov rdx, "@
            + op.args[0] + "\n  ."@ + decimal(label)
            + ":\n     mov [rdx], cl\n     mov cl, ["@ + op.args[1]
            + "+rdx]\n     inc rax\n     inc rdx\n     cmp rax, "@ + op.args[1] + "-"@
            + op.args[0] + "\n      jl ."@ + decimal(label)
            + "\n     pop rax\n     pop cx\n     pop rdx\n     "@,
    }
}

/// The comment that ends every emitted line of `op`: the number of the
/// source line, the source file and the source text, then a line feed.
pub open spec fn trace_comment(op: OperationModel) -> Seq<char> {
    " ; ["@ + pad_left(decimal(op.line), LINE_NUMBER_WIDTH as nat) + " / "@ + op.file + "] "@
        + op.orig + "\n"@
}

/// One emitted line: the assembly text, padded to the comment column, and
/// the comment.
pub open spec fn traced(line: Seq<char>, op: OperationModel) -> Seq<char> {
    pad_right(line, COMMENT_COLUMN as nat) + trace_comment(op)
}

/// The emitted lines of `lines`, one after the other.
pub open spec fn annotated(lines: Seq<Seq<char>>, op: OperationModel) -> Seq<char>
    decreases lines.len(),
{
    if lines.len() == 0 {
        Seq::empty()
    } else {
        annotated(lines.drop_last(), op) + traced(lines.last(), op)
    }
}

/// The listing of one operation: nothing where the template is empty,
/// otherwise every line of the template with its comment.
pub open spec fn listing(op: OperationModel, label: nat) -> Seq<char> {
    if template(op, label).len() == 0 {
        Seq::empty()
    } else {
        annotated(split_lines(template(op, label)), op)
    }
}

/// Whether the listing of an operation of this kind depends on the label.
pub open spec fn uses_label(kind: OperationType) -> bool {
    kind == OperationType::ReadFromMemoryRange
}

/// Whether `part` stands somewhere in `whole`, character by character.
pub open spec fn occurs_in(part: Seq<char>, whole: Seq<char>) -> bool {
    exists|at: int|
        0 <= at && at + part.len() <= whole.len() && #[trigger] whole.subrange(
            at,
            at + part.len(),
        ) == part
}

/// The comment of an operation holds the number of its source line, the path
/// of its source file and its source text.
pub proof fn lemma_comment_names_the_source(op: OperationModel)
    ensures
        occurs_in(decimal(op.line), trace_comment(op)),
        occurs_in(op.file, trace_comment(op)),
        occurs_in(op.orig, trace_comment(op)),
{
    let comment = trace_comment(op);
    let number = decimal(op.line);
    let field = pad_left(number, LINE_NUMBER_WIDTH as nat);
    let a: int = " ; ["@.len() + field.len() - number.len();
    assert(comment.subrange(a, a + number.len()) =~= number);
    let b: int = (" ; ["@.len() + field.len() + " / "@.len()) as int;
    assert(comment.subrange(b, b + op.file.len()) =~= op.file);
    let c: int = b + op.file.len() + "] "@.len();
    assert(comment.subrange(c, c + op.orig.len()) =~= op.orig);
}

/// Every line of a template stands in the listing as an emitted line: the
/// assembly text in a field of [`COMMENT_COLUMN`] characters, then the
/// comment of the operation.
pub proof fn lemma_every_line_is_traced(lines: Seq<Seq<char>>, op: OperationModel, i: int)
    requires
        0 <= i < lines.len(),
    ensures
        occurs_in(pad_right(lines[i], COMMENT_COLUMN as nat) + trace_comment(op), annotated(lines, op)),
    decreases lines.len(),
{
    let whole = annotated(lines, op);
    let front = annotated(lines.drop_last(), op);
    let part = traced(lines[i], op);
    if i == lines.len() - 1 {
        let at: int = front.len() as int;
        assert(whole.subrange(at, at + part.len()) =~= part);
    } else {
        lemma_every_line_is_traced(lines.drop_last(), op, i);
        assert(lines.drop_last()[i] == lines[i]);
        let at = choose|at: int|
            0 <= at && at + part.len() <= front.len() && #[trigger] front.subrange(
                at,
                at + part.len(),
            ) == part;
        assert(whole.subrange(at, at + part.len()) =~= front.subrange(at, at + part.len()));
    }
}

fn template_text(op: &Operation, label: u32) -> (r: String)
    requires
        op@.well_formed(),
    ensures
        r@ == template(op@, label as nat),
{
    match op.op {
        OperationType::Move => two_operands("     mov ", op.args[0].as_str(), op.args[1].as_str()),
        OperationType::Add => two_operands("     add ", op.args[0].as_str(), op.args[1].as_str()),
        OperationType::Subtract => two_operands(
            "     sub ",
            op.args[0].as_str(),
            op.args[1].as_str(),
        ),
        OperationType::Multiply => two_operands(
            "     mul ",
            op.args[0].as_str(),
            op.args[1].as_str(),
        ),
        OperationType::Divide => two_operands(
            "     div ",
            op.args[0].as_str(),
            op.args[1].as_str(),
        ),
        OperationType::FunctionStart => {
            let mut s = op.args[0].clone();
            s.append(":");
            s
        },
        OperationType::FunctionEnd => String::from_str("     ret"),
        OperationType::SetStartFunction => {
            let mut s = String::from_str("  global _start \n _start: jmp ");
            s.append(op.args[0].as_str());
            s
        },
        OperationType::FunctionEnter => {
            let mut s = String::from_str("    call ");
            s.append(op.args[0].as_str());
            s
        },
        OperationType::TextSection => String::from_str(" section .text"),
        OperationType::DataSection => String::from_str(" section .data"),
        OperationType::UninitializedDataSection => String::from_str(" section .bss"),
        OperationType::ExitProcess => {
            let mut s = String::from_str("     mov rax, 60\n     mov rdi, ");
            s.append(op.args[0].as_str());
            s.append("\n syscall");
            s
        },
        OperationType::SetWriter => String::new(),
        OperationType::NoOp => String::new(),
        OperationType::PushToStack => {
            let mut s = String::from_str("    push ");
            s.append(op.args[0].as_str());
            s
        },
        OperationType::PopFromStack => {
            let mut s = String::from_str("     pop ");
            s.append(op.args[0].as_str());
            s
        },
        OperationType::ReadFromMemory => {
            let mut s = String::from_str("     mov ");
            s.append(op.args[1].as_str());
            s.append(", [");
            s.append(op.args[0].as_str());
            s.append("]");
            s
        },
        OperationType::WriteToMemory => {
            let mut s = String::from_str("     mov [");
            s.append(op.args[1].as_str());
            s.append("], ");
            s.append(op.args[0].as_str());
            s
        },
        OperationType::DefineVariable => {
            let mut s = op.args[0].clone();
            s.append(": d");
            s.append(op.args[1].as_str());
            s.append(" ");
            s.append(op.args[2].as_str());
            s
        },
        OperationType::DefineUninitVariable => {
            let mut s = op.args[0].clone();
            s.append(": res");
            s.append(op.args[1].as_str());
            s.append(" 1");
            s
        },
        OperationType::RunInterrupt => {
            let mut s = String::from_str("     int ");
            s.append(op.args[0].as_str());
            s.append("h");
            s
        },
        OperationType::ReadFromMemoryRange => {
            let mut s = String::from_str(
                "\n     push rdx\n     push cx\n     push rax\n     mov rdx, ",
            );
            s.append(op.args[0].as_str());
            s.append("\n  .");
            push_decimal(&mut s, label as u64);
            s.append(":\n     mov [rdx], cl\n     mov cl, [");
            s.append(op.args[1].as_str());
            s.append("+rdx]\n     inc rax\n     inc rdx\n     cmp rax, ");
            s.append(op.args[1].as_str());
            s.append("-");
            s.append(op.args[0].as_str());
            s.append("\n      jl .");
            push_decimal(&mut s, label as u64);
            s.append("\n     pop rax\n     pop cx\n     pop rdx\n     ");
            s
        },
    }
}

fn two_operands(mnemonic: &str, first: &str, second: &str) -> (r: String)
    ensures
        r@ == mnemonic@ + first@ + ", "@ + second@,
{
    let mut s = String::from_str(mnemonic);
    s.append(first);
    s.append(", ");
    s.append(second);
    s
}

fn comment_text(op: &Operation) -> (r: String)
    ensures
        r@ == trace_comment(op@),
{
    let mut number = String::new();
    push_decimal(&mut number, op.line as u64);
    assert(number@ =~= decimal(op.line as nat));
    let mut s = String::from_str(" ; [");
    push_padded_left(&mut s, number.as_str(), LINE_NUMBER_WIDTH);
    s.append(" / ");
    s.append(op.file.as_str());
    s.append("] ");
    s.append(op.orig.as_str());
    s.append("\n");
    s
}

impl IntelAsmWriter {
    /// Emits `operation`, numbering the loop of a range read with `label`.
    pub fn generate_labelled(operation: &Operation, label: u32) -> (out: Vec<u8>)
        requires
            operation@.well_formed(),
        ensures
            out@ == encode_utf8(listing(operation@, label as nat)),
    {
        let text = template_text(operation, label);
        let mut listing = String::new();
        if text.as_str().unicode_len() > 0 {
            let comment = comment_text(operation);
            let lines = lines_of(text.as_str());
            let mut i: usize = 0;
            assert(lines.deep_view().take(0) =~= Seq::<Seq<char>>::empty());
            while i < lines.len()
                invariant
                    i <= lines.len(),
                    comment@ == trace_comment(operation@),
                    listing@ == annotated(lines.deep_view().take(i as int), operation@),
                decreases lines.len() - i,
            {
                let ghost done = lines.deep_view().take(i + 1);
                assert(done.drop_last() =~= lines.deep_view().take(i as int));
                assert(done.last() == lines[i as int]@);
                let ghost before = listing@;
                push_padded_right(&mut listing, lines[i].as_str(), COMMENT_COLUMN);
                listing.append(comment.as_str());
                assert(listing@ =~= before + traced(lines[i as int]@, operation@));
                i += 1;
            }
            assert(lines.deep_view().take(lines.len() as int) =~= lines.deep_view());
        }
        listing.as_str().as_bytes_vec()
    }

    /// Emits `operation`. The loop of a range read gets a label drawn at
    /// random, so that two range reads in one listing do not share it.
    pub fn generate(operation: Operation) -> (out: Vec<u8>)
        requires
            operation@.well_formed(),
        ensures
            exists|label: u32|
                LABEL_MIN <= label < LABEL_END && out@ == encode_utf8(
                    #[trigger] listing(operation@, label as nat),
                ),
            !uses_label(operation.op) ==> out@ == encode_utf8(
                listing(operation@, LABEL_MIN as nat),
            ),
    {
        let label = fresh_label(operation.op);
        IntelAsmWriter::generate_labelled(&operation, label)
    }
}

/// Draws a number in `low..high` with `rand::Rng::gen_range` from the
/// generator that `rand::thread_rng` hands out. Of the number only its range
/// is known.
#[verifier::external_body]
fn random_between(low: u32, high: u32) -> (r: u32)
    requires
        low < high,
    ensures
        low <= r < high,
{
    rand::Rng::gen_range(&mut rand::thread_rng(), low, high)
}

/// The label for an operation of kind `kind`: a fresh random one where the
/// listing uses it.
pub fn fresh_label(kind: OperationType) -> (label: u32)
    ensures
        LABEL_MIN <= label < LABEL_END,
        !uses_label(kind) ==> label == LABEL_MIN,
{
    match kind {
        OperationType::ReadFromMemoryRange => random_between(LABEL_MIN, LABEL_END),
        _ => LABEL_MIN,
    }
}

} // verus!
