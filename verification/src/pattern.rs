//! Whole-line pattern matching. Patterns are regular expressions in the
//! syntax of the `regex` crate, which does the matching.

use vstd::prelude::*;

verus! {

/// `regex::Error`, the reason why a pattern did not compile. Nothing is
/// known of what a value of it holds.
#[verifier::external_type_specification]
#[verifier::external_body]
pub struct ExRegexError(regex::Error);

/// Whether `regex::Regex::new` compiles `pattern`.
pub uninterp spec fn regex_accepts(pattern: Seq<char>) -> bool;

/// What `regex::Regex::captures` finds in `text` with the regular expression
/// compiled from `pattern`: nothing, or the text of every capture group in
/// the order of the opening parentheses, group 0 being the whole match and a
/// group that took no part in the match being `None`.
pub uninterp spec fn regex_groups(pattern: Seq<char>, text: Seq<char>) -> Option<
    Seq<Option<Seq<char>>>,
>;

/// Compiles `pattern` with `regex::Regex::new` and searches `text` with
/// `regex::Regex::captures`. The compile error is handed back as it is;
/// otherwise the groups of the leftmost match are copied out one by one.
/// Both outcomes depend on the two arguments alone, which is all that the
/// contract claims: it gives them their names.
#[verifier::external_body]
fn find_groups(pattern: &str, text: &str) -> (r: Result<Option<Vec<Option<String>>>, regex::Error>)
    ensures
        r is Ok == regex_accepts(pattern@),
        r matches Ok(found) ==> found.deep_view() == regex_groups(pattern@, text@),
{
    let re = regex::Regex::new(pattern)?;
    Ok(
        re.captures(text).map(
            |caps| caps.iter().map(|group| group.map(|m| m.as_str().to_string())).collect(),
        ),
    )
}

/// The operands that a match in `text` delivers to a rule that expects
/// `arity` of them: the groups after group 0, provided that the match is all
/// of `text`, that there are exactly `arity` groups after group 0 and that
/// each took part in the match.
pub open spec fn args_of(groups: Seq<Option<Seq<char>>>, arity: nat, text: Seq<char>) -> Option<
    Seq<Seq<char>>,
> {
    if groups.len() == arity + 1 && groups[0] == Some(text) && (forall|i: int|
        1 <= i < groups.len() ==> groups[i] is Some) {
        Some(Seq::new(arity, |i: int| groups[i + 1]->0))
    } else {
        None
    }
}

/// Executable form of [`args_of`].
pub fn captured_args(groups: Vec<Option<String>>, arity: usize, text: &str) -> (r: Option<
    Vec<String>,
>)
    ensures
        r.deep_view() == args_of(groups.deep_view(), arity as nat, text@),
{
    if groups.len() == 0 || groups.len() - 1 != arity {
        return None;
    }
    let ghost model = groups.deep_view();
    let whole = match &groups[0] {
        Some(matched) => *matched == String::from_str(text),
        None => false,
    };
    assert(whole == (model[0] == Some(text@)));
    if !whole {
        return None;
    }
    let mut rest = groups;
    let mut args: Vec<String> = Vec::new();
    let mut i: usize = arity;
    // Taken from the back, each group is moved out of the vector without a copy.
    while i > 0
        invariant
            i <= arity,
            model == groups.deep_view(),
            model.len() == arity + 1,
            rest@.len() == i + 1,
            forall|k: int| 0 <= k <= i ==> (#[trigger] rest@[k]).deep_view() == model[k],
            args@.len() == arity - i,
            forall|k: int| i < k <= arity ==> (#[trigger] model[k]) is Some,
            forall|k: int| 0 <= k < args@.len() ==> (#[trigger] args@[k])@ == model[arity - k]->0,
        decreases i,
    {
        let ghost before = rest@;
        let last = rest.pop();
        assert(last == Some(before[i as int]));
        match last {
            Some(Some(text)) => {
                args.push(text);
            },
            _ => {
                assert(model[i as int] is None);
                assert(args_of(model, arity as nat, text@) is None);
                return None;
            },
        }
        i -= 1;
    }
    let mut ordered: Vec<String> = Vec::new();
    while args.len() > 0
        invariant
            model.len() == arity + 1,
            args@.len() + ordered@.len() == arity,
            forall|k: int| 0 <= k < args@.len() ==> (#[trigger] args@[k])@ == model[arity - k]->0,
            forall|k: int|
                0 <= k < ordered@.len() ==> (#[trigger] ordered@[k])@ == model[k + 1]->0,
        decreases args@.len(),
    {
        let ghost n = args@.len();
        let ghost before = args@;
        let text = args.pop().unwrap();
        assert(text == before[n - 1]);
        ordered.push(text);
    }
    assert(ordered.deep_view() =~= Seq::new(arity as nat, |i: int| model[i + 1]->0));
    Some(ordered)
}

/// `pattern` between the anchors of the start and of the end of the text.
pub open spec fn anchored(pattern: Seq<char>) -> Seq<char> {
    "^(?:"@ + pattern + ")$"@
}

/// The operands that `pattern`, anchored, captures from `text` when the
/// match is all of `text` and the pattern has exactly `arity` capture groups,
/// each taking part in the match. A pattern that does not compile captures
/// nothing.
pub open spec fn pattern_args(pattern: Seq<char>, arity: nat, text: Seq<char>) -> Option<
    Seq<Seq<char>>,
> {
    if regex_accepts(anchored(pattern)) {
        match regex_groups(anchored(pattern), text) {
            Some(groups) => args_of(groups, arity, text),
            None => None,
        }
    } else {
        None
    }
}

/// Matches `pattern` against the whole of `text`. A pattern that does not
/// compile matches nothing.
pub fn match_pattern(pattern: &str, arity: usize, text: &str) -> (r: Option<Vec<String>>)
    ensures
        r.deep_view() == pattern_args(pattern@, arity as nat, text@),
{
    let mut whole = String::from_str("^(?:");
    whole.append(pattern);
    whole.append(")$");
    match find_groups(whole.as_str(), text) {
        Ok(Some(groups)) => captured_args(groups, arity, text),
        Ok(None) => None,
        Err(_) => None,
    }
}

/// Whether `pattern` can be used in a rule: one that cannot matches nothing.
pub fn pattern_compiles(pattern: &str) -> (r: bool)
    ensures
        r == regex_accepts(anchored(pattern@)),
{
    let mut whole = String::from_str("^(?:");
    whole.append(pattern);
    whole.append(")$");
    find_groups(whole.as_str(), "").is_ok()
}

} // verus!
