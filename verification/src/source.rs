//! Source files held in memory, and the scan that turns a file and the files
//! it brings in into one sequence of operations.

use vstd::prelude::*;
use crate::dispatch::{
    dispatch, first_match, include_target, include_target_of, lemma_match_comes_from_rule,
};
use crate::normalize::{normalize, normalized};
use crate::operation::{Operation, OperationModel, OperationType, Rule, RuleModel};
use crate::rules::covers_operands;
use crate::text::{lemma_deep_view_add, lemma_deep_view_push, lines_of, split_lines};

verus! {

/// The text of one source file, under the path by which directives name it.
#[derive(Clone, Debug, PartialEq, Eq)]
pub struct SourceFile {
    pub path: String,
    pub text: String,
}

/// A [`SourceFile`] as a mathematical value.
pub struct SourceModel {
    pub path: Seq<char>,
    pub text: Seq<char>,
}

impl View for SourceFile {
    type V = SourceModel;

    open spec fn view(&self) -> SourceModel {
        SourceModel { path: self.path@, text: self.text@ }
    }
}

impl DeepView for SourceFile {
    type V = SourceModel;

    open spec fn deep_view(&self) -> SourceModel {
        self@
    }
}

/// A remark on one source line.
#[derive(Clone, Debug, PartialEq, Eq)]
pub struct Diagnostic {
    /// The path of the file that holds the line.
    pub file: String,
    /// The number of the line in its file, counted from 1.
    pub line: usize,
    /// For a line that no rule matches, the line in normal form; for a
    /// directive that was dropped, the path it names.
    pub text: String,
}

/// A [`Diagnostic`] as a mathematical value.
pub struct DiagnosticModel {
    pub file: Seq<char>,
    pub line: nat,
    pub text: Seq<char>,
}

impl View for Diagnostic {
    type V = DiagnosticModel;

    open spec fn view(&self) -> DiagnosticModel {
        DiagnosticModel { file: self.file@, line: self.line as nat, text: self.text@ }
    }
}

impl DeepView for Diagnostic {
    type V = DiagnosticModel;

    open spec fn deep_view(&self) -> DiagnosticModel {
        self@
    }
}

/// What scanning has gathered.
#[derive(Clone, Debug, PartialEq, Eq)]
pub struct Scan {
    /// The operations, in source order, those of a file that was brought in
    /// standing where the directive stood.
    pub ops: Vec<Operation>,
    /// The lines that no rule matches.
    pub errors: Vec<Diagnostic>,
    /// The directives that were dropped because they would have closed a
    /// cycle.
    pub dropped: Vec<Diagnostic>,
}

/// A [`Scan`] as a mathematical value.
pub struct ScanModel {
    pub ops: Seq<OperationModel>,
    pub errors: Seq<DiagnosticModel>,
    pub dropped: Seq<DiagnosticModel>,
}

impl View for Scan {
    type V = ScanModel;

    open spec fn view(&self) -> ScanModel {
        ScanModel {
            ops: self.ops.deep_view(),
            errors: self.errors.deep_view(),
            dropped: self.dropped.deep_view(),
        }
    }
}

impl ScanModel {
    /// A scan that has gathered nothing.
    pub open spec fn empty() -> ScanModel {
        ScanModel { ops: Seq::empty(), errors: Seq::empty(), dropped: Seq::empty() }
    }

    /// This scan followed by `next`.
    pub open spec fn followed_by(self, next: ScanModel) -> ScanModel {
        ScanModel {
            ops: self.ops + next.ops,
            errors: self.errors + next.errors,
            dropped: self.dropped + next.dropped,
        }
    }
}

/// The text of the first file of `sources` that has the path `path`.
pub open spec fn source_text(sources: Seq<SourceModel>, path: Seq<char>) -> Option<Seq<char>>
    decreases sources.len(),
{
    if sources.len() == 0 {
        None
    } else if sources[0].path == path {
        Some(sources[0].text)
    } else {
        source_text(sources.drop_first(), path)
    }
}

/// Looks `path` up among `sources`.
pub fn find_source<'a>(sources: &'a Vec<SourceFile>, path: &String) -> (r: Option<&'a String>)
    ensures
        r.deep_view() == source_text(sources.deep_view(), path@),
{
    let mut i: usize = 0;
    assert(sources.deep_view().skip(0) =~= sources.deep_view());
    while i < sources.len()
        invariant
            i <= sources.len(),
            source_text(sources.deep_view(), path@) == source_text(
                sources.deep_view().skip(i as int),
                path@,
            ),
        decreases sources.len() - i,
    {
        let ghost rest = sources.deep_view().skip(i as int);
        assert(rest[0] == sources[i as int]@);
        assert(rest.drop_first() =~= sources.deep_view().skip(i + 1));
        if sources[i].path == *path {
            return Some(&sources[i].text);
        }
        i += 1;
    }
    None
}

/// Whether `path` stands in the list `ban`.
pub fn is_banned(ban: &Vec<String>, path: &String) -> (r: bool)
    ensures
        r == ban.deep_view().contains(path@),
{
    let mut i: usize = 0;
    while i < ban.len()
        invariant
            i <= ban.len(),
            forall|k: int| 0 <= k < i ==> (#[trigger] ban.deep_view()[k]) != path@,
        decreases ban.len() - i,
    {
        if ban[i] == *path {
            assert(ban.deep_view()[i as int] == path@);
            return true;
        }
        i += 1;
    }
    false
}

/// The number of files of `sources` whose path does not stand in `ban`.
pub open spec fn unbanned(sources: Seq<SourceModel>, ban: Seq<Seq<char>>) -> nat
    decreases sources.len(),
{
    if sources.len() == 0 {
        0
    } else {
        unbanned(sources.drop_first(), ban) + if ban.contains(sources[0].path) {
            0nat
        } else {
            1nat
        }
    }
}

/// The measure by which a scan ends: every file that is brought in either
/// takes a path out of those that may still be brought in, or was the one
/// repetition that the ban list lets through.
pub open spec fn weight(sources: Seq<SourceModel>, file: Seq<char>, ban: Seq<Seq<char>>) -> nat {
    2 * unbanned(sources, ban) + if ban.contains(file) {
        1nat
    } else {
        0nat
    }
}

proof fn lemma_unbanned_shrinks(sources: Seq<SourceModel>, ban: Seq<Seq<char>>, file: Seq<char>)
    ensures
        unbanned(sources, ban.push(file)) <= unbanned(sources, ban),
        source_text(sources, file) is Some && !ban.contains(file) ==> unbanned(
            sources,
            ban.push(file),
        ) < unbanned(sources, ban),
    decreases sources.len(),
{
    if sources.len() > 0 {
        lemma_unbanned_shrinks(sources.drop_first(), ban, file);
        lemma_push_contains(ban, file, sources[0].path);
    }
}

proof fn lemma_push_contains(ban: Seq<Seq<char>>, file: Seq<char>, path: Seq<char>)
    ensures
        ban.push(file).contains(path) <==> ban.contains(path) || path == file,
{
    let grown = ban.push(file);
    if ban.contains(path) {
        let k = choose|k: int| 0 <= k < ban.len() && ban[k] == path;
        assert(grown[k] == path);
    }
    if path == file {
        assert(grown[ban.len() as int] == path);
    }
}

/// Bringing in `path` from `file` makes the weight smaller.
pub proof fn lemma_weight_decreases(
    sources: Seq<SourceModel>,
    file: Seq<char>,
    ban: Seq<Seq<char>>,
    path: Seq<char>,
)
    requires
        source_text(sources, file) is Some,
        !ban.contains(path),
    ensures
        weight(sources, path, ban.push(file)) < weight(sources, file, ban),
{
    lemma_unbanned_shrinks(sources, ban, file);
    lemma_push_contains(ban, file, path);
}

/// The number of lines of the file `path`; 0 where `sources` holds no such
/// file.
pub open spec fn line_count(sources: Seq<SourceModel>, path: Seq<char>) -> nat {
    match source_text(sources, path) {
        Some(text) => split_lines(text).len(),
        None => 0,
    }
}

/// What a line that brings in no file adds to a scan: its operation, unless
/// it is a blank line or a comment, or an error where no rule matches it.
pub open spec fn line_outcome(rules: Seq<RuleModel>, line: Seq<char>, index: nat, file: Seq<char>)
    -> ScanModel {
    match first_match(rules, line, index, file) {
        None => ScanModel {
            ops: Seq::empty(),
            errors: seq![DiagnosticModel { file, line: index, text: normalized(line) }],
            dropped: Seq::empty(),
        },
        Some(op) => if op.op == OperationType::NoOp {
            ScanModel::empty()
        } else {
            ScanModel { ops: seq![op], errors: Seq::empty(), dropped: Seq::empty() }
        },
    }
}

/// What a directive adds to a scan when the path it names stands in the ban
/// list: a warning, and nothing else.
pub open spec fn dropped_outcome(path: Seq<char>, index: nat, file: Seq<char>) -> ScanModel {
    ScanModel {
        ops: Seq::empty(),
        errors: Seq::empty(),
        dropped: seq![DiagnosticModel { file, line: index, text: path }],
    }
}

/// The scan of the first `n` lines of `file`, with `ban` holding the paths of
/// the files that are being scanned around it. `Err` names the first file
/// that was needed and that `sources` does not hold.
///
/// A directive that names a path of the ban list is dropped. Any other one is
/// replaced by the whole scan of the file it names, made with `file` added to
/// the ban list. A file does not stand on its own ban list: one that names
/// itself is scanned once more in its own place, and there the list stops it.
pub open spec fn scan(
    sources: Seq<SourceModel>,
    rules: Seq<RuleModel>,
    file: Seq<char>,
    ban: Seq<Seq<char>>,
    n: nat,
) -> Result<ScanModel, Seq<char>>
    decreases weight(sources, file, ban), n,
{
    match source_text(sources, file) {
        None => Err(file),
        Some(text) => {
            let lines = split_lines(text);
            if n == 0 || n > lines.len() {
                Ok(ScanModel::empty())
            } else {
                match scan(sources, rules, file, ban, (n - 1) as nat) {
                    Err(missing) => Err(missing),
                    Ok(before) => {
                        let line = lines[n - 1];
                        match include_target_of(line) {
                            Some(path) => if ban.contains(path) {
                                Ok(before.followed_by(dropped_outcome(path, n, file)))
                            } else {
                                proof {
                                    lemma_weight_decreases(sources, file, ban, path);
                                }
                                match scan(
                                    sources,
                                    rules,
                                    path,
                                    ban.push(file),
                                    line_count(sources, path),
                                ) {
                                    Err(missing) => Err(missing),
                                    Ok(inner) => Ok(before.followed_by(inner)),
                                }
                            },
                            None => Ok(before.followed_by(line_outcome(rules, line, n, file))),
                        }
                    },
                }
            }
        },
    }
}

/// The scan of all of `file`.
pub open spec fn scan_all(
    sources: Seq<SourceModel>,
    rules: Seq<RuleModel>,
    file: Seq<char>,
    ban: Seq<Seq<char>>,
) -> Result<ScanModel, Seq<char>> {
    scan(sources, rules, file, ban, line_count(sources, file))
}

/// The result of a scan as a mathematical value.
pub open spec fn scan_result_model(r: Result<Scan, String>) -> Result<ScanModel, Seq<char>> {
    match r {
        Ok(found) => Ok(found@),
        Err(missing) => Err(missing@),
    }
}

/// The ban list for a file that `file` brings in: `ban` with `file` added.
fn extended_ban(ban: &Vec<String>, file: &String) -> (r: Vec<String>)
    ensures
        r.deep_view() == ban.deep_view().push(file@),
{
    let mut out: Vec<String> = Vec::new();
    let mut i: usize = 0;
    while i < ban.len()
        invariant
            i <= ban.len(),
            out@.len() == i,
            forall|k: int| 0 <= k < i ==> (#[trigger] out@[k])@ == ban@[k]@,
        decreases ban.len() - i,
    {
        out.push(ban[i].clone());
        i += 1;
    }
    out.push(file.clone());
    assert(out.deep_view() =~= ban.deep_view().push(file@));
    out
}

impl Scan {
    /// A scan that has gathered nothing.
    pub fn new() -> (r: Scan)
        ensures
            r@ == ScanModel::empty(),
    {
        let r = Scan { ops: Vec::new(), errors: Vec::new(), dropped: Vec::new() };
        assert(r.ops.deep_view() =~= Seq::empty());
        assert(r.errors.deep_view() =~= Seq::empty());
        assert(r.dropped.deep_view() =~= Seq::empty());
        r
    }

    /// Appends what `next` has gathered.
    pub fn append(&mut self, next: Scan)
        ensures
            final(self)@ == old(self)@.followed_by(next@),
    {
        let ghost before = *self;
        let mut next = next;
        let ghost added = next;
        self.ops.append(&mut next.ops);
        self.errors.append(&mut next.errors);
        self.dropped.append(&mut next.dropped);
        proof {
            lemma_deep_view_add(before.ops, added.ops, self.ops);
            lemma_deep_view_add(before.errors, added.errors, self.errors);
            lemma_deep_view_add(before.dropped, added.dropped, self.dropped);
        }
    }
}

/// Scans `file` and the files that it brings in, against `table`.
pub fn scan_file(sources: &Vec<SourceFile>, table: &Vec<Rule>, file: &String, ban: &Vec<String>)
    -> (r: Result<Scan, String>)
    ensures
        scan_result_model(r) == scan_all(
            sources.deep_view(),
            table.deep_view(),
            file@,
            ban.deep_view(),
        ),
    decreases weight(sources.deep_view(), file@, ban.deep_view()),
{
    let text = match find_source(sources, file) {
        Some(text) => text,
        None => {
            return Err(file.clone());
        },
    };
    let lines = lines_of(text.as_str());
    let mut acc = Scan::new();
    let mut n: usize = 0;
    while n < lines.len()
        invariant
            n <= lines.len(),
            source_text(sources.deep_view(), file@) == Some(text@),
            lines.deep_view() == split_lines(text@),
            Ok::<ScanModel, Seq<char>>(acc@) == scan(
                sources.deep_view(),
                table.deep_view(),
                file@,
                ban.deep_view(),
                n as nat,
            ),
        decreases lines.len() - n,
    {
        let line = &lines[n];
        let index = n + 1;
        assert(line@ == split_lines(text@)[index - 1]);
        match include_target(line.as_str()) {
            Some(path) => {
                if is_banned(ban, &path) {
                    let ghost before = acc;
                    let warning = Diagnostic { file: file.clone(), line: index, text: path };
                    acc.dropped.push(warning);
                    proof {
                        lemma_deep_view_push(before.dropped, acc.dropped, warning);
                        let grown = before@.followed_by(
                            dropped_outcome(path@, index as nat, file@),
                        );
                        assert(acc@.ops =~= grown.ops);
                        assert(acc@.errors =~= grown.errors);
                        assert(acc@.dropped =~= grown.dropped);
                    }
                } else {
                    let inner_ban = extended_ban(ban, file);
                    proof {
                        lemma_weight_decreases(
                            sources.deep_view(),
                            file@,
                            ban.deep_view(),
                            path@,
                        );
                    }
                    match scan_file(sources, table, &path, &inner_ban) {
                        Ok(inner) => {
                            acc.append(inner);
                        },
                        Err(missing) => {
                            proof {
                                lemma_scan_stays_unreadable(
                                    sources.deep_view(),
                                    table.deep_view(),
                                    file@,
                                    ban.deep_view(),
                                    index as nat,
                                    lines.len() as nat,
                                );
                            }
                            return Err(missing);
                        },
                    }
                }
            },
            None => {
                let ghost before = acc;
                match dispatch(line.as_str(), table, index, file.as_str()) {
                    Some(op) => {
                        if op.op != OperationType::NoOp {
                            acc.ops.push(op);
                            proof {
                                lemma_deep_view_push(before.ops, acc.ops, op);
                            }
                        }
                    },
                    None => {
                        let error = Diagnostic {
                            file: file.clone(),
                            line: index,
                            text: normalize(line.as_str()),
                        };
                        acc.errors.push(error);
                        proof {
                            lemma_deep_view_push(before.errors, acc.errors, error);
                        }
                    },
                }
                proof {
                    let grown = before@.followed_by(
                        line_outcome(table.deep_view(), line@, index as nat, file@),
                    );
                    assert(acc@.ops =~= grown.ops);
                    assert(acc@.errors =~= grown.errors);
                    assert(acc@.dropped =~= grown.dropped);
                }
            },
        }
        n += 1;
    }
    Ok(acc)
}

/// Once a file is found to be missing, the scan of any longer part of the
/// file names the same path.
pub proof fn lemma_scan_stays_unreadable(
    sources: Seq<SourceModel>,
    rules: Seq<RuleModel>,
    file: Seq<char>,
    ban: Seq<Seq<char>>,
    n: nat,
    m: nat,
)
    requires
        scan(sources, rules, file, ban, n) is Err,
        n <= m <= line_count(sources, file),
    ensures
        scan(sources, rules, file, ban, m) == scan(sources, rules, file, ban, n),
    decreases m,
{
    if n < m {
        lemma_scan_stays_unreadable(sources, rules, file, ban, n, (m - 1) as nat);
    }
}

/// Every operation of `ops` holds the operands that the emitters read.
pub open spec fn all_well_formed(ops: Seq<OperationModel>) -> bool {
    forall|i: int| 0 <= i < ops.len() ==> (#[trigger] ops[i]).well_formed()
}

/// With a table whose rules capture the operands of their kinds, a scan
/// gathers only operations that the emitters can read, and none that is a
/// blank line or a comment.
pub proof fn lemma_scan_well_formed(
    sources: Seq<SourceModel>,
    rules: Seq<RuleModel>,
    file: Seq<char>,
    ban: Seq<Seq<char>>,
    n: nat,
)
    requires
        covers_operands(rules),
    ensures
        scan(sources, rules, file, ban, n) matches Ok(found) ==> all_well_formed(found.ops) && (
        forall|i: int| 0 <= i < found.ops.len() ==> (#[trigger] found.ops[i]).op
            != OperationType::NoOp),
    decreases weight(sources, file, ban), n,
{
    if let Some(text) = source_text(sources, file) {
        let lines = split_lines(text);
        if n > 0 && n <= lines.len() {
            lemma_scan_well_formed(sources, rules, file, ban, (n - 1) as nat);
            if let Ok(before) = scan(sources, rules, file, ban, (n - 1) as nat) {
                let line = lines[n - 1];
                match include_target_of(line) {
                    Some(path) => {
                        if !ban.contains(path) {
                            lemma_weight_decreases(sources, file, ban, path);
                            lemma_scan_well_formed(
                                sources,
                                rules,
                                path,
                                ban.push(file),
                                line_count(sources, path),
                            );
                        }
                    },
                    None => {
                        if first_match(rules, line, n, file) is Some {
                            let k = lemma_match_comes_from_rule(rules, line, n, file);
                        }
                    },
                }
            }
        }
    }
}

/// The operation that line `k` of `file` stands for by itself: none where
/// there is no such line, where the line brings in a file, where no rule
/// matches it, and where it is a blank line or a comment.
pub open spec fn operation_at(
    sources: Seq<SourceModel>,
    rules: Seq<RuleModel>,
    file: Seq<char>,
    k: nat,
) -> Option<OperationModel> {
    match source_text(sources, file) {
        None => None,
        Some(text) => if 1 <= k <= split_lines(text).len() && include_target_of(
            split_lines(text)[k - 1],
        ) is None {
            match first_match(rules, split_lines(text)[k - 1], k, file) {
                Some(op) => if op.op == OperationType::NoOp {
                    None
                } else {
                    Some(op)
                },
                None => None,
            }
        } else {
            None
        },
    }
}

/// The error that line `k` of `file` stands for: there is one where the line
/// brings in no file and no rule matches it.
pub open spec fn error_at(
    sources: Seq<SourceModel>,
    rules: Seq<RuleModel>,
    file: Seq<char>,
    k: nat,
) -> Option<DiagnosticModel> {
    match source_text(sources, file) {
        None => None,
        Some(text) => if 1 <= k <= split_lines(text).len() && include_target_of(
            split_lines(text)[k - 1],
        ) is None && first_match(rules, split_lines(text)[k - 1], k, file) is None {
            Some(DiagnosticModel { file, line: k, text: normalized(split_lines(text)[k - 1]) })
        } else {
            None
        },
    }
}

/// Every operation of a scan stands for the source line that it names, in
/// the file that it names, and every error for a line that no rule matches:
/// a scan makes up nothing.
pub proof fn lemma_scan_provenance(
    sources: Seq<SourceModel>,
    rules: Seq<RuleModel>,
    file: Seq<char>,
    ban: Seq<Seq<char>>,
    n: nat,
)
    ensures
        scan(sources, rules, file, ban, n) matches Ok(found) ==> (forall|i: int|
            0 <= i < found.ops.len() ==> operation_at(
                sources,
                rules,
                (#[trigger] found.ops[i]).file,
                found.ops[i].line,
            ) == Some(found.ops[i])) && (forall|i: int|
            0 <= i < found.errors.len() ==> error_at(
                sources,
                rules,
                (#[trigger] found.errors[i]).file,
                found.errors[i].line,
            ) == Some(found.errors[i])),
    decreases weight(sources, file, ban), n,
{
    if let Some(text) = source_text(sources, file) {
        let lines = split_lines(text);
        if n > 0 && n <= lines.len() {
            lemma_scan_provenance(sources, rules, file, ban, (n - 1) as nat);
            if let Ok(before) = scan(sources, rules, file, ban, (n - 1) as nat) {
                let line = lines[n - 1];
                match include_target_of(line) {
                    Some(path) => {
                        if !ban.contains(path) {
                            lemma_weight_decreases(sources, file, ban, path);
                            lemma_scan_provenance(
                                sources,
                                rules,
                                path,
                                ban.push(file),
                                line_count(sources, path),
                            );
                        }
                    },
                    None => {
                        if first_match(rules, line, n, file) is Some {
                            let k = lemma_match_comes_from_rule(rules, line, n, file);
                        }
                    },
                }
            }
        }
    }
}

/// Every line that brings in no file and that no rule matches is among the
/// errors of a scan that reached it, whatever stands before or after it.
pub proof fn lemma_every_error_is_reported(
    sources: Seq<SourceModel>,
    rules: Seq<RuleModel>,
    file: Seq<char>,
    ban: Seq<Seq<char>>,
    n: nat,
    k: nat,
)
    requires
        1 <= k <= n <= line_count(sources, file),
        include_target_of(split_lines(source_text(sources, file)->0)[k - 1]) is None,
        first_match(rules, split_lines(source_text(sources, file)->0)[k - 1], k, file) is None,
        scan(sources, rules, file, ban, n) is Ok,
    ensures
        scan(sources, rules, file, ban, n)->Ok_0.errors.contains(
            DiagnosticModel {
                file,
                line: k,
                text: normalized(split_lines(source_text(sources, file)->0)[k - 1]),
            },
        ),
    decreases n,
{
    let line = split_lines(source_text(sources, file)->0)[k - 1];
    let error = DiagnosticModel { file, line: k, text: normalized(line) };
    let before = scan(sources, rules, file, ban, (n - 1) as nat)->Ok_0;
    let after = scan(sources, rules, file, ban, n)->Ok_0;
    if k < n {
        lemma_every_error_is_reported(sources, rules, file, ban, (n - 1) as nat, k);
        let at = choose|at: int| 0 <= at < before.errors.len() && before.errors[at] == error;
        assert(after.errors[at] == error);
    } else {
        assert(after.errors[before.errors.len() as int] == error);
    }
}

/// A directive that names a file which is being scanned around it adds a
/// warning to the scan and nothing else. So where `outer` brings in `file`
/// and `file` asks for `outer` again, the second request is dropped.
pub proof fn lemma_cycle_is_cut(
    sources: Seq<SourceModel>,
    rules: Seq<RuleModel>,
    file: Seq<char>,
    ban: Seq<Seq<char>>,
    outer: Seq<char>,
    n: nat,
)
    requires
        1 <= n <= line_count(sources, file),
        ban.contains(outer),
        include_target_of(split_lines(source_text(sources, file)->0)[n - 1]) == Some(outer),
        scan(sources, rules, file, ban, (n - 1) as nat) is Ok,
    ensures
        scan(sources, rules, file, ban, n) == Ok::<ScanModel, Seq<char>>(
            scan(sources, rules, file, ban, (n - 1) as nat)->Ok_0.followed_by(
                dropped_outcome(outer, n, file),
            ),
        ),
{
}

} // verus!
