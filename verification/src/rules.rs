//! The rule table of the source language.

use vstd::prelude::*;
use crate::operation::{OperationType, Rule, RuleModel};

verus! {

/// The rules of the language, in order of precedence. Where a line fits
/// several patterns the first entry decides: a range read is no plain read,
/// a comment is no assignment, and a compound assignment such as `a += b`
/// is read before the plain one.
pub open spec fn standard_rules() -> Seq<RuleModel> {
    seq![
        RuleModel {
            kind: OperationType::ReadFromMemoryRange,
            pattern: "read \\[(.+)\\.\\.(.+)] into (.+)"@,
            arity: 3,
        },
        RuleModel { kind: OperationType::NoOp, pattern: "//.*"@, arity: 0 },
        RuleModel { kind: OperationType::NoOp, pattern: "\\s*"@, arity: 0 },
        RuleModel { kind: OperationType::RunInterrupt, pattern: "run interrupt (.+)"@, arity: 1 },
        RuleModel {
            kind: OperationType::DefineUninitVariable,
            pattern: "variable (.+): ([bwdq])"@,
            arity: 2,
        },
        RuleModel {
            kind: OperationType::DefineVariable,
            pattern: "variable (.+): ([bwdq]) set to (.+)"@,
            arity: 3,
        },
        RuleModel { kind: OperationType::WriteToMemory, pattern: "write (.+) into (.+)"@, arity: 2 },
        RuleModel { kind: OperationType::ReadFromMemory, pattern: "read (.+) into (.+)"@, arity: 2 },
        RuleModel { kind: OperationType::PopFromStack, pattern: "pop value (.+)"@, arity: 1 },
        RuleModel { kind: OperationType::PushToStack, pattern: "push value (.+)"@, arity: 1 },
        RuleModel { kind: OperationType::ExitProcess, pattern: "exit proc with (.+)"@, arity: 1 },
        RuleModel { kind: OperationType::UninitializedDataSection, pattern: "#udata"@, arity: 0 },
        RuleModel { kind: OperationType::DataSection, pattern: "#data"@, arity: 0 },
        RuleModel { kind: OperationType::TextSection, pattern: "#text"@, arity: 0 },
        RuleModel { kind: OperationType::Divide, pattern: "(.+) /= (.+)"@, arity: 2 },
        RuleModel { kind: OperationType::Multiply, pattern: "(.+) \\*= (.+)"@, arity: 2 },
        RuleModel { kind: OperationType::Subtract, pattern: "(.+) -= (.+)"@, arity: 2 },
        RuleModel { kind: OperationType::Add, pattern: "(.+) \\+= (.+)"@, arity: 2 },
        RuleModel { kind: OperationType::SetStartFunction, pattern: "#start_func (.+)"@, arity: 1 },
        RuleModel { kind: OperationType::FunctionEnter, pattern: "call (.+)"@, arity: 1 },
        RuleModel { kind: OperationType::FunctionEnd, pattern: "func end"@, arity: 0 },
        RuleModel { kind: OperationType::FunctionStart, pattern: "func begin (.+)"@, arity: 1 },
        RuleModel { kind: OperationType::Move, pattern: "(.+) = (.+)"@, arity: 2 },
        RuleModel { kind: OperationType::SetWriter, pattern: "#writer (.+)"@, arity: 1 },
    ]
}

/// Every rule captures at least the operands that the emitters read from an
/// operation of its kind.
pub open spec fn covers_operands(rules: Seq<RuleModel>) -> bool {
    forall|k: int| 0 <= k < rules.len() ==> (#[trigger] rules[k]).arity >= rules[k].kind.operands()
}

/// The standard table covers the operands of every kind.
pub proof fn lemma_standard_rules_cover_operands()
    ensures
        covers_operands(standard_rules()),
{
}

fn rule(kind: OperationType, pattern: &str, arity: usize) -> (r: Rule)
    ensures
        r@ == (RuleModel { kind, pattern: pattern@, arity: arity as nat }),
{
    Rule { kind, pattern: String::from_str(pattern), arity }
}

/// Builds the standard table.
pub fn rule_table() -> (table: Vec<Rule>)
    ensures
        table.deep_view() == standard_rules(),
{
    let mut table: Vec<Rule> = Vec::new();
    table.push(rule(OperationType::ReadFromMemoryRange, "read \\[(.+)\\.\\.(.+)] into (.+)", 3));
    table.push(rule(OperationType::NoOp, "//.*", 0));
    table.push(rule(OperationType::NoOp, "\\s*", 0));
    table.push(rule(OperationType::RunInterrupt, "run interrupt (.+)", 1));
    table.push(rule(OperationType::DefineUninitVariable, "variable (.+): ([bwdq])", 2));
    table.push(rule(OperationType::DefineVariable, "variable (.+): ([bwdq]) set to (.+)", 3));
    table.push(rule(OperationType::WriteToMemory, "write (.+) into (.+)", 2));
    table.push(rule(OperationType::ReadFromMemory, "read (.+) into (.+)", 2));
    table.push(rule(OperationType::PopFromStack, "pop value (.+)", 1));
    table.push(rule(OperationType::PushToStack, "push value (.+)", 1));
    table.push(rule(OperationType::ExitProcess, "exit proc with (.+)", 1));
    table.push(rule(OperationType::UninitializedDataSection, "#udata", 0));
    table.push(rule(OperationType::DataSection, "#data", 0));
    table.push(rule(OperationType::TextSection, "#text", 0));
    table.push(rule(OperationType::Divide, "(.+) /= (.+)", 2));
    table.push(rule(OperationType::Multiply, "(.+) \\*= (.+)", 2));
    table.push(rule(OperationType::Subtract, "(.+) -= (.+)", 2));
    table.push(rule(OperationType::Add, "(.+) \\+= (.+)", 2));
    table.push(rule(OperationType::SetStartFunction, "#start_func (.+)", 1));
    table.push(rule(OperationType::FunctionEnter, "call (.+)", 1));
    table.push(rule(OperationType::FunctionEnd, "func end", 0));
    table.push(rule(OperationType::FunctionStart, "func begin (.+)", 1));
    table.push(rule(OperationType::Move, "(.+) = (.+)", 2));
    table.push(rule(OperationType::SetWriter, "#writer (.+)", 1));
    assert(table.deep_view() =~= standard_rules());
    table
}

} // verus!
