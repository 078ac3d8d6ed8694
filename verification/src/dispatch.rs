//! The pattern dispatcher: a line is classified by the first rule of an
//! ordered table that applies to it.

use vstd::prelude::*;
use crate::normalize::{lemma_normalized_idempotent, normalize, normalized};
use crate::operation::{push_to, rule_outcome, Operation, OperationModel, Rule, RuleModel};
use crate::pattern::{anchored, match_pattern, pattern_args, regex_accepts, regex_groups};

verus! {

/// Whether `rule` applies to `line`: its pattern matches the whole line in
/// normal form and captures as many operands as the rule expects.
pub open spec fn applies(rule: RuleModel, line: Seq<char>) -> bool {
    pattern_args(rule.pattern, rule.arity, normalized(line)) is Some
}

/// What the table makes of `line`: the outcome of the first rule, in table
/// order, that applies.
pub open spec fn first_match(rules: Seq<RuleModel>, line: Seq<char>, index: nat, file: Seq<char>)
    -> Option<OperationModel>
    decreases rules.len(),
{
    if rules.len() == 0 {
        None
    } else {
        match first_match(rules.drop_last(), line, index, file) {
            Some(op) => Some(op),
            None => rule_outcome(rules.last(), line, index, file),
        }
    }
}

/// Classifies one line, found at line `index` of `file`, against `table`.
/// `None` says that no rule applies.
pub fn dispatch(line: &str, table: &Vec<Rule>, index: usize, file: &str) -> (r: Option<Operation>)
    ensures
        r.deep_view() == first_match(table.deep_view(), line@, index as nat, file@),
{
    let mut op: Option<Operation> = None;
    let mut i: usize = 0;
    while i < table.len()
        invariant
            i <= table.len(),
            op.deep_view() == first_match(
                table.deep_view().take(i as int),
                line@,
                index as nat,
                file@,
            ),
        decreases table.len() - i,
    {
        let ghost rules = table.deep_view().take(i + 1);
        assert(rules.drop_last() =~= table.deep_view().take(i as int));
        assert(rules.last() == table[i as int]@);
        push_to(&mut op, &table[i], line, index, file);
        i += 1;
    }
    assert(table.deep_view().take(table.len() as int) =~= table.deep_view());
    op
}

/// The operation is made by the earliest rule that applies.
pub proof fn lemma_earliest_rule_wins(
    rules: Seq<RuleModel>,
    line: Seq<char>,
    index: nat,
    file: Seq<char>,
    i: int,
)
    requires
        0 <= i < rules.len(),
        applies(rules[i], line),
        forall|k: int| 0 <= k < i ==> !applies(#[trigger] rules[k], line),
    ensures
        first_match(rules, line, index, file) == rule_outcome(rules[i], line, index, file),
        first_match(rules, line, index, file) is Some,
    decreases rules.len(),
{
    let front = rules.drop_last();
    if i == rules.len() - 1 {
        lemma_unmatched(front, line, index, file);
    } else {
        assert(front[i] == rules[i]);
        assert forall|k: int| 0 <= k < i implies !applies(#[trigger] front[k], line) by {
            assert(front[k] == rules[k]);
        }
        lemma_earliest_rule_wins(front, line, index, file, i);
    }
}

/// The table makes nothing of a line exactly when none of its rules applies.
pub proof fn lemma_unmatched(rules: Seq<RuleModel>, line: Seq<char>, index: nat, file: Seq<char>)
    ensures
        first_match(rules, line, index, file) is None <==> forall|k: int|
            0 <= k < rules.len() ==> !applies(#[trigger] rules[k], line),
    decreases rules.len(),
{
    if rules.len() > 0 {
        let front = rules.drop_last();
        lemma_unmatched(front, line, index, file);
        if first_match(rules, line, index, file) is None {
            assert forall|k: int| 0 <= k < rules.len() implies !applies(
                #[trigger] rules[k],
                line,
            ) by {
                if k < front.len() {
                    assert(front[k] == rules[k]);
                }
            }
        } else if first_match(front, line, index, file) is Some {
            let k = choose|k: int| 0 <= k < front.len() && applies(#[trigger] front[k], line);
            assert(front[k] == rules[k]);
        }
    }
}

/// A rule applies only where its pattern matched the line from its first
/// character to its last: nothing before or after the match is passed over.
pub proof fn lemma_match_is_whole_line(rule: RuleModel, line: Seq<char>)
    requires
        applies(rule, line),
    ensures
        regex_accepts(anchored(rule.pattern)),
        regex_groups(anchored(rule.pattern), normalized(line)) matches Some(groups)
            && groups.len() == rule.arity + 1 && groups[0] == Some(normalized(line)),
{
}

/// An operation that the table makes comes from one of its rules: it has
/// the kind of that rule and as many operands as the rule expects, and it
/// carries the line in normal form with the place it was given.
pub proof fn lemma_match_comes_from_rule(
    rules: Seq<RuleModel>,
    line: Seq<char>,
    index: nat,
    file: Seq<char>,
) -> (k: int)
    requires
        first_match(rules, line, index, file) is Some,
    ensures
        0 <= k < rules.len(),
        first_match(rules, line, index, file) == rule_outcome(rules[k], line, index, file),
        first_match(rules, line, index, file)->0.op == rules[k].kind,
        first_match(rules, line, index, file)->0.args.len() == rules[k].arity,
        first_match(rules, line, index, file)->0.orig == normalized(line),
        first_match(rules, line, index, file)->0.line == index,
        first_match(rules, line, index, file)->0.file == file,
    decreases rules.len(),
{
    let front = rules.drop_last();
    if first_match(front, line, index, file) is Some {
        let k = lemma_match_comes_from_rule(front, line, index, file);
        assert(front[k] == rules[k]);
        k
    } else {
        rules.len() - 1
    }
}

/// Where two rules of a table both apply to a line, the later of the two
/// does not decide: the operation comes from a rule at or before the earlier.
pub proof fn lemma_rule_order(
    rules: Seq<RuleModel>,
    line: Seq<char>,
    index: nat,
    file: Seq<char>,
    i: int,
    j: int,
) -> (k: int)
    requires
        0 <= i < j < rules.len(),
        applies(rules[i], line),
        applies(rules[j], line),
    ensures
        0 <= k <= i,
        applies(rules[k], line),
        first_match(rules, line, index, file) == rule_outcome(rules[k], line, index, file),
        first_match(rules, line, index, file) is Some,
        forall|e: int| 0 <= e < k ==> !applies(#[trigger] rules[e], line),
{
    let k = earliest(rules, line, i);
    lemma_earliest_rule_wins(rules, line, index, file, k);
    k
}

/// The index of the earliest rule that applies, given that rule `i` does.
proof fn earliest(rules: Seq<RuleModel>, line: Seq<char>, i: int) -> (k: int)
    requires
        0 <= i < rules.len(),
        applies(rules[i], line),
    ensures
        0 <= k <= i,
        applies(rules[k], line),
        forall|e: int| 0 <= e < k ==> !applies(#[trigger] rules[e], line),
    decreases i,
{
    if exists|e: int| 0 <= e < i && applies(#[trigger] rules[e], line) {
        let e = choose|e: int| 0 <= e < i && applies(#[trigger] rules[e], line);
        earliest(rules, line, e)
    } else {
        i
    }
}

/// Classifying a line and classifying its normal form give the same
/// operation, so the text kept in an operation gives that operation again.
pub proof fn lemma_dispatch_idempotent(
    rules: Seq<RuleModel>,
    line: Seq<char>,
    index: nat,
    file: Seq<char>,
)
    ensures
        first_match(rules, normalized(line), index, file) == first_match(rules, line, index, file),
        first_match(rules, line, index, file) matches Some(op) ==> op.orig == normalized(line)
            && first_match(rules, op.orig, index, file) == Some(op),
    decreases rules.len(),
{
    lemma_normalized_idempotent(line);
    if rules.len() > 0 {
        lemma_dispatch_idempotent(rules.drop_last(), line, index, file);
    }
}

/// A line to which exactly one rule applies is made into the outcome of that
/// rule each time it is classified, and the text that the operation keeps is
/// classified as the line was.
pub proof fn lemma_single_rule_decides(
    rules: Seq<RuleModel>,
    line: Seq<char>,
    index: nat,
    file: Seq<char>,
    i: int,
)
    requires
        0 <= i < rules.len(),
        applies(rules[i], line),
        forall|k: int| 0 <= k < rules.len() && k != i ==> !applies(#[trigger] rules[k], line),
    ensures
        first_match(rules, line, index, file) == rule_outcome(rules[i], line, index, file),
        first_match(rules, line, index, file) matches Some(op) && first_match(
            rules,
            op.orig,
            index,
            file,
        ) == Some(op),
{
    lemma_earliest_rule_wins(rules, line, index, file, i);
    lemma_dispatch_idempotent(rules, line, index, file);
}

/// The pattern of the directive that brings in another file.
pub open spec fn include_pattern() -> Seq<char> {
    "#include (.+)"@
}

/// The path that `line` asks to bring in, if it is such a directive.
pub open spec fn include_target_of(line: Seq<char>) -> Option<Seq<char>> {
    match pattern_args(include_pattern(), 1, normalized(line)) {
        Some(args) => Some(args[0]),
        None => None,
    }
}

/// Executable form of [`include_target_of`].
pub fn include_target(line: &str) -> (r: Option<String>)
    ensures
        r.deep_view() == include_target_of(line@),
{
    let text = normalize(line);
    match match_pattern("#include (.+)", 1, text.as_str()) {
        Some(mut args) => {
            let ghost model = args.deep_view();
            assert(model.len() == 1);
            let path = args.pop();
            assert(path.deep_view() == Some(model[0]));
            path
        },
        None => None,
    }
}

} // verus!
