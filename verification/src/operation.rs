//! Operations: what a source line is classified as, how a run of sources is
//! parsed into a sequence of them, and how such a sequence is written.

use vstd::prelude::*;
use crate::emitter::{
    active_after, effective, emitter_at, intel_asm_selector, next_active, select_emitter,
    write_step, written, Emitter,
};
use crate::intel_asm_writer::{fresh_label, LABEL_END, LABEL_MIN};
use crate::normalize::{normalize, normalized};
use crate::pattern::{match_pattern, pattern_args};
use crate::rules::{lemma_standard_rules_cover_operands, rule_table, standard_rules};
use crate::source::{
    all_well_formed, lemma_scan_well_formed, line_count, scan_all, scan_file, scan_result_model,
    Diagnostic, DiagnosticModel, Scan, ScanModel, SourceFile,
};
use crate::text::{joined, push_joined};

verus! {

/// The kinds of operation that the source language has.
#[derive(Clone, Copy, PartialEq, Eq, Structural, Debug)]
pub enum OperationType {
    SetWriter,
    Move,
    FunctionStart,
    FunctionEnd,
    FunctionEnter,
    Add,
    Subtract,
    Multiply,
    Divide,
    TextSection,
    DataSection,
    UninitializedDataSection,
    SetStartFunction,
    ExitProcess,
    PushToStack,
    PopFromStack,
    ReadFromMemory,
    ReadFromMemoryRange,
    WriteToMemory,
    DefineVariable,
    DefineUninitVariable,
    RunInterrupt,
    NoOp,
}

/// How the emitter of each operation is chosen.
#[derive(Clone, Copy, PartialEq, Eq, Structural, Debug)]
pub enum OutputType {
    /// Every operation goes to the Intel assembly emitter.
    IntelAsm,
    /// Each operation goes to the emitter that the directives have made
    /// active.
    Dynamic,
}

impl OutputType {
    /// The output type that a selector names: the forced emitter where the
    /// selector names one, and the dynamic choice for any other selector.
    pub open spec fn named(selector: Seq<char>) -> OutputType {
        if selector == intel_asm_selector() {
            OutputType::IntelAsm
        } else {
            OutputType::Dynamic
        }
    }

    /// Executable form of [`OutputType::named`].
    pub fn from_selector(selector: &str) -> (r: OutputType)
        ensures
            r == OutputType::named(selector@),
    {
        match select_emitter(selector) {
            Emitter::IntelAsm => OutputType::IntelAsm,
            Emitter::Silent => OutputType::Dynamic,
        }
    }
}

impl OperationType {
    /// The number of operands that the emitters read from an operation of
    /// this kind.
    pub open spec fn operands(self) -> nat {
        match self {
            OperationType::SetWriter => 0,
            OperationType::Move => 2,
            OperationType::FunctionStart => 1,
            OperationType::FunctionEnd => 0,
            OperationType::FunctionEnter => 1,
            OperationType::Add => 2,
            OperationType::Subtract => 2,
            OperationType::Multiply => 2,
            OperationType::Divide => 2,
            OperationType::TextSection => 0,
            OperationType::DataSection => 0,
            OperationType::UninitializedDataSection => 0,
            OperationType::SetStartFunction => 1,
            OperationType::ExitProcess => 1,
            OperationType::PushToStack => 1,
            OperationType::PopFromStack => 1,
            OperationType::ReadFromMemory => 2,
            OperationType::ReadFromMemoryRange => 2,
            OperationType::WriteToMemory => 2,
            OperationType::DefineVariable => 3,
            OperationType::DefineUninitVariable => 2,
            OperationType::RunInterrupt => 1,
            OperationType::NoOp => 0,
        }
    }

    /// The name of the kind, as diagnostics show it.
    pub open spec fn name(self) -> Seq<char> {
        match self {
            OperationType::Move => "MOV"@,
            OperationType::NoOp => "NONE"@,
            OperationType::FunctionStart => "FUNC START"@,
            OperationType::FunctionEnd => "FUNC END"@,
            OperationType::SetStartFunction => "FUNC BEGIN"@,
            OperationType::FunctionEnter => "FUNC CALL"@,
            OperationType::Add => "ADD"@,
            OperationType::Subtract => "SUB"@,
            OperationType::Multiply => "MUL"@,
            OperationType::Divide => "DIV"@,
            OperationType::TextSection => "SECT TEXT"@,
            OperationType::DataSection => "SECT DATA"@,
            OperationType::UninitializedDataSection => "SECT UDATA"@,
            OperationType::ExitProcess => "EXIT PROC"@,
            OperationType::SetWriter => "SET WRITER"@,
            OperationType::PushToStack => "PUSH"@,
            OperationType::PopFromStack => "POP"@,
            OperationType::ReadFromMemory => "READ"@,
            OperationType::WriteToMemory => "WRITE"@,
            OperationType::DefineVariable => "VARIABLE"@,
            OperationType::DefineUninitVariable => "UVARIABLE"@,
            OperationType::RunInterrupt => "INTERRUPT"@,
            OperationType::ReadFromMemoryRange => "READ RANGE"@,
        }
    }

    /// The name of the kind as a string.
    pub fn to_string(&self) -> (r: String)
        ensures
            r@ == self.name(),
    {
        String::from_str(
            match self {
                OperationType::Move => "MOV",
                OperationType::NoOp => "NONE",
                OperationType::FunctionStart => "FUNC START",
                OperationType::FunctionEnd => "FUNC END",
                OperationType::SetStartFunction => "FUNC BEGIN",
                OperationType::FunctionEnter => "FUNC CALL",
                OperationType::Add => "ADD",
                OperationType::Subtract => "SUB",
                OperationType::Multiply => "MUL",
                OperationType::Divide => "DIV",
                OperationType::TextSection => "SECT TEXT",
                OperationType::DataSection => "SECT DATA",
                OperationType::UninitializedDataSection => "SECT UDATA",
                OperationType::ExitProcess => "EXIT PROC",
                OperationType::SetWriter => "SET WRITER",
                OperationType::PushToStack => "PUSH",
                OperationType::PopFromStack => "POP",
                OperationType::ReadFromMemory => "READ",
                OperationType::WriteToMemory => "WRITE",
                OperationType::DefineVariable => "VARIABLE",
                OperationType::DefineUninitVariable => "UVARIABLE",
                OperationType::RunInterrupt => "INTERRUPT",
                OperationType::ReadFromMemoryRange => "READ RANGE",
            },
        )
    }

    /// Executable form of [`OperationType::operands`].
    pub fn operand_count(self) -> (n: usize)
        ensures
            n == self.operands(),
    {
        match self {
            OperationType::Move
            | OperationType::Add
            | OperationType::Subtract
            | OperationType::Multiply
            | OperationType::Divide
            | OperationType::ReadFromMemory
            | OperationType::ReadFromMemoryRange
            | OperationType::WriteToMemory
            | OperationType::DefineUninitVariable => 2,
            OperationType::FunctionStart
            | OperationType::FunctionEnter
            | OperationType::SetStartFunction
            | OperationType::ExitProcess
            | OperationType::PushToStack
            | OperationType::PopFromStack
            | OperationType::RunInterrupt => 1,
            OperationType::DefineVariable => 3,
            OperationType::SetWriter
            | OperationType::FunctionEnd
            | OperationType::TextSection
            | OperationType::DataSection
            | OperationType::UninitializedDataSection
            | OperationType::NoOp => 0,
        }
    }
}

/// One source line, classified.
#[derive(Clone, Debug, PartialEq, Eq)]
pub struct Operation {
    /// The kind of operation.
    pub op: OperationType,
    /// The operands, in the order in which the rule's pattern captured them.
    pub args: Vec<String>,
    /// The source line in normal form.
    pub orig: String,
    /// The number of the line in its file, counted from 1.
    pub line: usize,
    /// The path of the file that holds the line.
    pub file: String,
}

/// An [`Operation`] as a mathematical value.
pub struct OperationModel {
    pub op: OperationType,
    pub args: Seq<Seq<char>>,
    pub orig: Seq<char>,
    pub line: nat,
    pub file: Seq<char>,
}

impl OperationModel {
    /// The operation holds the operands that the emitters read from one of
    /// its kind.
    pub open spec fn well_formed(self) -> bool {
        self.args.len() >= self.op.operands()
    }

    /// The operation as diagnostics show it: the name of its kind and its
    /// operands, in round brackets.
    pub open spec fn shown(self) -> Seq<char> {
        "("@ + self.op.name() + ", "@ + joined(self.args, ", "@) + ")"@
    }
}

impl Operation {
    /// The operation as diagnostics show it.
    pub fn to_string(&self) -> (r: String)
        ensures
            r@ == self@.shown(),
    {
        let mut s = String::from_str("(");
        s.append(self.op.to_string().as_str());
        s.append(", ");
        push_joined(&mut s, &self.args, ", ");
        s.append(")");
        s
    }

    /// The operand at position `index`.
    pub fn index(&self, index: usize) -> (r: &String)
        requires
            index < self@.args.len(),
        ensures
            r@ == self@.args[index as int],
    {
        &self.args[index]
    }

    /// Whether the operation holds the operands that the emitters read from
    /// one of its kind.
    pub fn is_well_formed(&self) -> (r: bool)
        ensures
            r == self@.well_formed(),
    {
        self.args.len() >= self.op.operand_count()
    }
}

impl View for Operation {
    type V = OperationModel;

    open spec fn view(&self) -> OperationModel {
        OperationModel {
            op: self.op,
            args: self.args.deep_view(),
            orig: self.orig@,
            line: self.line as nat,
            file: self.file@,
        }
    }
}

impl DeepView for Operation {
    type V = OperationModel;

    open spec fn deep_view(&self) -> OperationModel {
        self@
    }
}

/// One entry of a rule table.
#[derive(Clone, Debug, PartialEq, Eq)]
pub struct Rule {
    /// The kind of the operations that the rule produces.
    pub kind: OperationType,
    /// The pattern that a whole line in normal form has to match.
    pub pattern: String,
    /// The number of operands that the pattern captures.
    pub arity: usize,
}

/// A [`Rule`] as a mathematical value.
pub struct RuleModel {
    pub kind: OperationType,
    pub pattern: Seq<char>,
    pub arity: nat,
}

impl View for Rule {
    type V = RuleModel;

    open spec fn view(&self) -> RuleModel {
        RuleModel { kind: self.kind, pattern: self.pattern@, arity: self.arity as nat }
    }
}

impl DeepView for Rule {
    type V = RuleModel;

    open spec fn deep_view(&self) -> RuleModel {
        self@
    }
}

/// The operation that `rule` makes of `line`, found at line `index` of
/// `file`, if the rule applies to the line.
pub open spec fn rule_outcome(rule: RuleModel, line: Seq<char>, index: nat, file: Seq<char>)
    -> Option<OperationModel> {
    match pattern_args(rule.pattern, rule.arity, normalized(line)) {
        Some(args) => Some(
            OperationModel { op: rule.kind, args, orig: normalized(line), line: index, file },
        ),
        None => None,
    }
}

/// Tries one rule on one line. An operation that an earlier rule has put into
/// `op` stays; otherwise `op` receives what `rule` makes of the line.
pub fn push_to(op: &mut Option<Operation>, rule: &Rule, line: &str, index: usize, file: &str)
    ensures
        *old(op) is Some ==> *final(op) == *old(op),
        *old(op) is None ==> final(op).deep_view() == rule_outcome(
            rule@,
            line@,
            index as nat,
            file@,
        ),
{
    if op.is_some() {
        return ;
    }
    let text = normalize(line);
    match match_pattern(rule.pattern.as_str(), rule.arity, text.as_str()) {
        Some(args) => {
            *op = Some(
                Operation {
                    op: rule.kind,
                    args,
                    orig: text,
                    line: index,
                    file: String::from_str(file),
                },
            );
        },
        None => {},
    }
}

/// What a run that found no error hands on.
#[derive(Clone, Debug, PartialEq, Eq)]
pub struct Parsed {
    /// The operations, in source order.
    pub ops: Vec<Operation>,
    /// The directives that were dropped because they would have closed a
    /// cycle.
    pub warnings: Vec<Diagnostic>,
}

/// Why a run handed on no operations.
#[derive(Clone, Debug, PartialEq, Eq)]
pub enum ParseError {
    /// The file of this path was needed and is not among the sources.
    Unreadable(String),
    /// These lines match no rule: all of them, in source order.
    Syntax(Vec<Diagnostic>),
}

/// A [`Parsed`] as a mathematical value.
pub struct ParsedModel {
    pub ops: Seq<OperationModel>,
    pub warnings: Seq<DiagnosticModel>,
}

/// A [`ParseError`] as a mathematical value.
pub enum ParseErrorModel {
    Unreadable(Seq<char>),
    Syntax(Seq<DiagnosticModel>),
}

impl View for Parsed {
    type V = ParsedModel;

    open spec fn view(&self) -> ParsedModel {
        ParsedModel { ops: self.ops.deep_view(), warnings: self.warnings.deep_view() }
    }
}

impl View for ParseError {
    type V = ParseErrorModel;

    open spec fn view(&self) -> ParseErrorModel {
        match self {
            ParseError::Unreadable(path) => ParseErrorModel::Unreadable(path@),
            ParseError::Syntax(errors) => ParseErrorModel::Syntax(errors.deep_view()),
        }
    }
}

/// The result of a run as a mathematical value.
pub open spec fn parse_result_model(r: Result<Parsed, ParseError>) -> Result<
    ParsedModel,
    ParseErrorModel,
> {
    match r {
        Ok(parsed) => Ok(parsed@),
        Err(error) => Err(error@),
    }
}

/// How a run ends, given what its scan gathered: a missing file ends it at
/// once; otherwise one error or more fail it, with all of them listed; and
/// otherwise it hands on the operations and the warnings.
pub open spec fn parse_outcome(found: Result<ScanModel, Seq<char>>) -> Result<
    ParsedModel,
    ParseErrorModel,
> {
    match found {
        Err(missing) => Err(ParseErrorModel::Unreadable(missing)),
        Ok(scan) => if scan.errors.len() > 0 {
            Err(ParseErrorModel::Syntax(scan.errors))
        } else {
            Ok(ParsedModel { ops: scan.ops, warnings: scan.dropped })
        },
    }
}

/// Decides how a run ends. See [`parse_outcome`].
pub fn conclude(found: Result<Scan, String>) -> (r: Result<Parsed, ParseError>)
    ensures
        parse_result_model(r) == parse_outcome(scan_result_model(found)),
{
    match found {
        Err(missing) => Err(ParseError::Unreadable(missing)),
        Ok(scan) => if scan.errors.len() > 0 {
            Err(ParseError::Syntax(scan.errors))
        } else {
            Ok(Parsed { ops: scan.ops, warnings: scan.dropped })
        },
    }
}

/// Parses `file` against `table`. The text of `file` and of every file that
/// it brings in is looked up in `sources`; `inc_ban_list` holds the paths that
/// may not be brought in.
pub fn parse_with(
    table: &Vec<Rule>,
    file: &str,
    inc_ban_list: Vec<String>,
    sources: &Vec<SourceFile>,
) -> (r: Result<Parsed, ParseError>)
    ensures
        parse_result_model(r) == parse_outcome(
            scan_all(sources.deep_view(), table.deep_view(), file@, inc_ban_list.deep_view()),
        ),
{
    let path = String::from_str(file);
    conclude(scan_file(sources, table, &path, &inc_ban_list))
}

/// Parses `file` against the standard rule table. What it hands on can be
/// written: every operation holds the operands of its kind.
pub fn parse(file: &str, inc_ban_list: Vec<String>, sources: &Vec<SourceFile>) -> (r: Result<
    Parsed,
    ParseError,
>)
    ensures
        parse_result_model(r) == parse_outcome(
            scan_all(sources.deep_view(), standard_rules(), file@, inc_ban_list.deep_view()),
        ),
        r matches Ok(parsed) ==> all_well_formed(parsed.ops.deep_view()),
{
    let table = rule_table();
    proof {
        lemma_standard_rules_cover_operands();
        lemma_scan_well_formed(
            sources.deep_view(),
            standard_rules(),
            file@,
            inc_ban_list.deep_view(),
            line_count(sources.deep_view(), file@),
        );
    }
    parse_with(&table, file, inc_ban_list, sources)
}

/// The buffers of `out` as sequences of bytes.
pub open spec fn buffers(out: Vec<Vec<u8>>) -> Seq<Seq<u8>> {
    Seq::new(out@.len(), |i: int| out@[i]@)
}

/// Whether `ops` can be written: each operation that goes to the Intel
/// assembly emitter holds the operands of its kind.
pub open spec fn writable(ops: Seq<OperationModel>, output_type: OutputType) -> bool {
    forall|i: int|
        0 <= i < ops.len() && #[trigger] emitter_at(ops, output_type, i) == Emitter::IntelAsm
            ==> ops[i].well_formed()
}

/// Operations that are all well formed can be written in either mode.
pub proof fn lemma_well_formed_is_writable(ops: Seq<OperationModel>, output_type: OutputType)
    requires
        all_well_formed(ops),
    ensures
        writable(ops, output_type),
{
}

/// Executable form of [`writable`].
pub fn can_write(ops: &Vec<Operation>, output_type: OutputType) -> (r: bool)
    ensures
        r == writable(ops.deep_view(), output_type),
{
    let mut active = Emitter::IntelAsm;
    let mut i: usize = 0;
    while i < ops.len()
        invariant
            i <= ops.len(),
            active == active_after(ops.deep_view(), i as nat),
            forall|k: int|
                0 <= k < i && #[trigger] emitter_at(ops.deep_view(), output_type, k)
                    == Emitter::IntelAsm ==> ops.deep_view()[k].well_formed(),
        decreases ops.len() - i,
    {
        let op = &ops[i];
        assert(op@ == ops.deep_view()[i as int]);
        if op.op == OperationType::SetWriter && op.args.len() >= 1 {
            active = select_emitter(op.args[0].as_str());
        }
        let emitter = match output_type {
            OutputType::IntelAsm => Emitter::IntelAsm,
            OutputType::Dynamic => active,
        };
        assert(emitter == emitter_at(ops.deep_view(), output_type, i as int));
        if emitter == Emitter::IntelAsm && !op.is_well_formed() {
            return false;
        }
        i += 1;
    }
    true
}

/// Writes `ops` with the loop labels given: `labels[i]` numbers the loop of
/// operation `i`, should it have one. One buffer is made for each operation.
pub fn write_labelled(ops: &Vec<Operation>, output_type: OutputType, labels: &Vec<u32>) -> (out:
    Vec<Vec<u8>>)
    requires
        writable(ops.deep_view(), output_type),
        labels@.len() == ops@.len(),
    ensures
        buffers(out) == written(ops.deep_view(), output_type, labels@),
{
    let mut out: Vec<Vec<u8>> = Vec::new();
    let mut active = Emitter::IntelAsm;
    let mut i: usize = 0;
    while i < ops.len()
        invariant
            i <= ops.len(),
            labels@.len() == ops@.len(),
            writable(ops.deep_view(), output_type),
            active == active_after(ops.deep_view(), i as nat),
            out@.len() == i,
            forall|k: int|
                0 <= k < i ==> (#[trigger] out@[k])@ == written(
                    ops.deep_view(),
                    output_type,
                    labels@,
                )[k],
        decreases ops.len() - i,
    {
        assert(ops[i as int]@ == ops.deep_view()[i as int]);
        assert(emitter_at(ops.deep_view(), output_type, i as int) == effective(
            output_type,
            next_active(active, ops[i as int]@),
        ));
        let (next, bytes) = write_step(active, &ops[i], output_type, labels[i]);
        active = next;
        out.push(bytes);
        i += 1;
    }
    assert(buffers(out) =~= written(ops.deep_view(), output_type, labels@));
    out
}

/// Writes `ops`: one buffer for each operation, in order. The loop of each
/// range read gets a label drawn at random.
pub fn write(ops: Vec<Operation>, output_type: OutputType) -> (out: Vec<Vec<u8>>)
    requires
        writable(ops.deep_view(), output_type),
    ensures
        exists|labels: Seq<u32>|
            labels.len() == ops@.len() && (forall|i: int|
                0 <= i < labels.len() ==> LABEL_MIN <= #[trigger] labels[i] < LABEL_END)
                && buffers(out) == #[trigger] written(ops.deep_view(), output_type, labels),
{
    let mut labels: Vec<u32> = Vec::new();
    let mut i: usize = 0;
    while i < ops.len()
        invariant
            i <= ops.len(),
            labels@.len() == i,
            forall|k: int| 0 <= k < i ==> LABEL_MIN <= #[trigger] labels@[k] < LABEL_END,
        decreases ops.len() - i,
    {
        labels.push(fresh_label(ops[i].op));
        i += 1;
    }
    write_labelled(&ops, output_type, &labels)
}

} // verus!
