//! The result snapshot of one analysis run: the data every output strategy
//! reads.

use vstd::prelude::*;

verus! {

/// A source location. Lines and columns are counted from one.
#[derive(Debug, PartialEq, Eq)]
pub struct Span {
    pub line: usize,
    pub column: usize,
}

impl Span {
    /// Both coordinates are positive.
    pub open spec fn wf(&self) -> bool {
        self.line >= 1 && self.column >= 1
    }

    /// A location, unless a coordinate is zero.
    pub fn new(line: usize, column: usize) -> (span: Option<Span>)
        ensures
            span is Some <==> line >= 1 && column >= 1,
            span matches Some(s) ==> s.line == line && s.column == column,
    {
        if line >= 1 && column >= 1 {
            Some(Span { line, column })
        } else {
            None
        }
    }
}

impl Clone for Span {
    fn clone(&self) -> (copy: Span)
        ensures
            copy == *self,
    {
        Span { line: self.line, column: self.column }
    }
}

/// A violation, as mathematical data.
pub struct ViolationView {
    pub rule: Seq<char>,
    pub suggestion: Seq<char>,
    pub span: Span,
    pub line: Seq<char>,
}

/// One detected issue at a specific location.
#[derive(Debug, PartialEq, Eq)]
pub struct Violation {
    /// The code of the rule that fired.
    pub rule: String,
    /// The remediation text shown to the user.
    pub suggestion: String,
    /// Where the issue was found.
    pub span: Span,
    /// The source line the issue was found on.
    pub line: String,
}

impl View for Violation {
    type V = ViolationView;

    open spec fn view(&self) -> ViolationView {
        ViolationView {
            rule: self.rule@,
            suggestion: self.suggestion@,
            span: self.span,
            line: self.line@,
        }
    }
}

impl Clone for Violation {
    fn clone(&self) -> (copy: Violation)
        ensures
            copy@ == self@,
    {
        Violation {
            rule: self.rule.clone(),
            suggestion: self.suggestion.clone(),
            span: self.span.clone(),
            line: self.line.clone(),
        }
    }
}

/// The views of a run of violations.
pub open spec fn violation_views(violations: Seq<Violation>) -> Seq<ViolationView> {
    violations.map_values(|violation: Violation| violation@)
}

/// A file with its violations, as mathematical data.
pub struct FileView {
    pub path: Seq<char>,
    pub violations: Seq<ViolationView>,
}

/// One analysed file: its path and the violations found in it, in the order
/// they were found. A file without violations has an empty list.
#[derive(Debug, PartialEq, Eq)]
pub struct FileEntry {
    pub path: String,
    pub violations: Vec<Violation>,
}

impl View for FileEntry {
    type V = FileView;

    open spec fn view(&self) -> FileView {
        FileView { path: self.path@, violations: violation_views(self.violations@) }
    }
}

impl Clone for FileEntry {
    fn clone(&self) -> (copy: FileEntry)
        ensures
            copy@ == self@,
    {
        let mut violations: Vec<Violation> = Vec::new();
        let mut i: usize = 0;
        while i < self.violations.len()
            invariant
                i <= self.violations.len(),
                violations.len() == i,
                forall|k: int| 0 <= k < i ==> violations[k]@ == self.violations[k]@,
            decreases self.violations.len() - i,
        {
            violations.push(self.violations[i].clone());
            i = i + 1;
        }
        assert(violation_views(violations@) =~= violation_views(self.violations@));
        FileEntry { path: self.path.clone(), violations }
    }
}

/// The views of a run of files.
pub open spec fn file_views(files: Seq<FileEntry>) -> Seq<FileView> {
    files.map_values(|file: FileEntry| file@)
}

/// A rule code with its tally, as mathematical data.
pub struct CodeCountView {
    pub code: Seq<char>,
    pub count: nat,
}

/// How many violations of one rule were found across all files.
#[derive(Debug, PartialEq, Eq)]
pub struct CodeCount {
    pub code: String,
    pub count: usize,
}

impl View for CodeCount {
    type V = CodeCountView;

    open spec fn view(&self) -> CodeCountView {
        CodeCountView { code: self.code@, count: self.count as nat }
    }
}

impl Clone for CodeCount {
    fn clone(&self) -> (copy: CodeCount)
        ensures
            copy@ == self@,
    {
        CodeCount { code: self.code.clone(), count: self.count }
    }
}

/// The views of a run of tallies.
pub open spec fn code_count_views(counts: Seq<CodeCount>) -> Seq<CodeCountView> {
    counts.map_values(|count: CodeCount| count@)
}

/// An elapsed time, as mathematical data.
pub struct ElapsedView {
    pub secs: nat,
    pub nanos: nat,
}

/// An elapsed wall-clock time: whole seconds and the nanoseconds of the
/// second that has begun.
#[derive(Debug, PartialEq, Eq)]
pub struct Elapsed {
    secs: u64,
    nanos: u32,
}

impl View for Elapsed {
    type V = ElapsedView;

    closed spec fn view(&self) -> ElapsedView {
        ElapsedView { secs: self.secs as nat, nanos: self.nanos as nat }
    }
}

impl Elapsed {
    #[verifier::type_invariant]
    spec fn subsecond(&self) -> bool {
        self.nanos < 1_000_000_000
    }

    /// An elapsed time, unless the nanoseconds make up a second or more.
    pub fn new(secs: u64, nanos: u32) -> (elapsed: Option<Elapsed>)
        ensures
            elapsed is Some <==> nanos < 1_000_000_000,
            elapsed matches Some(e) ==> e@ == (ElapsedView {
                secs: secs as nat,
                nanos: nanos as nat,
            }),
    {
        if nanos < 1_000_000_000 {
            Some(Elapsed { secs, nanos })
        } else {
            None
        }
    }

    /// The elapsed time of a number of milliseconds.
    pub fn from_millis(millis: u64) -> (elapsed: Elapsed)
        ensures
            elapsed@ == (ElapsedView {
                secs: (millis / 1000) as nat,
                nanos: ((millis % 1000) * 1_000_000) as nat,
            }),
    {
        let rest: u64 = millis % 1000;
        let nanos: u32 = (rest * 1_000_000) as u32;
        Elapsed { secs: millis / 1000, nanos }
    }

    /// The whole seconds.
    pub fn secs(&self) -> (secs: u64)
        ensures
            secs == self@.secs,
    {
        self.secs
    }

    /// The nanoseconds of the second that has begun, below a thousand
    /// million.
    pub fn subsec_nanos(&self) -> (nanos: u32)
        ensures
            nanos == self@.nanos,
            nanos < 1_000_000_000,
    {
        proof {
            use_type_invariant(self);
        }
        self.nanos
    }
}

impl Clone for Elapsed {
    fn clone(&self) -> (copy: Elapsed)
        ensures
            copy@ == self@,
    {
        proof {
            use_type_invariant(self);
        }
        Elapsed { secs: self.secs, nanos: self.nanos }
    }
}

/// A result snapshot, as mathematical data.
pub struct ResultsView {
    pub files: Seq<FileView>,
    pub codes_count: Seq<CodeCountView>,
    pub total_files_count: nat,
    pub duration: Option<ElapsedView>,
}

/// The complete output of one analysis run.
#[derive(Debug, PartialEq, Eq)]
pub struct Results {
    /// Every analysed file with its violations, in analysis order. No path
    /// occurs twice.
    pub files: Vec<FileEntry>,
    /// The tally of every rule that fired. No code occurs twice.
    pub codes_count: Vec<CodeCount>,
    /// How many files were analysed, those without violations included.
    pub total_files_count: usize,
    /// How long the analysis took; present once it has finished.
    pub duration: Option<Elapsed>,
}

/// The paths of a run of files.
pub open spec fn paths(files: Seq<FileView>) -> Seq<Seq<char>> {
    files.map_values(|file: FileView| file.path)
}

/// The codes of a run of tallies.
pub open spec fn codes(counts: Seq<CodeCountView>) -> Seq<Seq<char>> {
    counts.map_values(|tally: CodeCountView| tally.code)
}

/// No path occurs twice.
pub open spec fn distinct_paths(files: Seq<FileView>) -> bool {
    paths(files).no_duplicates()
}

/// No code is tallied twice.
pub open spec fn distinct_codes(counts: Seq<CodeCountView>) -> bool {
    codes(counts).no_duplicates()
}

/// Every violation of the run lies at a positive line and column.
pub open spec fn positive_spans(violations: Seq<ViolationView>) -> bool {
    forall|k: int| 0 <= k < violations.len() ==> (#[trigger] violations[k]).span.wf()
}

impl ResultsView {
    /// The snapshot is valid: `files` and `codes_count` are mappings, so no
    /// path and no code occurs twice, and every violation has a location.
    pub open spec fn wf(self) -> bool {
        &&& distinct_paths(self.files)
        &&& distinct_codes(self.codes_count)
        &&& forall|i: int|
            0 <= i < self.files.len() ==> positive_spans((#[trigger] self.files[i]).violations)
    }
}

/// The view of an optional elapsed time.
pub open spec fn duration_view(duration: Option<Elapsed>) -> Option<ElapsedView> {
    match duration {
        Some(elapsed) => Some(elapsed@),
        None => None,
    }
}

impl View for Results {
    type V = ResultsView;

    open spec fn view(&self) -> ResultsView {
        ResultsView {
            files: file_views(self.files@),
            codes_count: code_count_views(self.codes_count@),
            total_files_count: self.total_files_count as nat,
            duration: duration_view(self.duration),
        }
    }
}

impl Results {
    /// Whether the snapshot is valid.
    pub open spec fn wf(&self) -> bool {
        self@.wf()
    }

    /// The snapshot of a run over `total_files_count` files that has found
    /// nothing yet and has not finished.
    pub fn new(total_files_count: usize) -> (results: Results)
        ensures
            results.wf(),
            results@ == (ResultsView {
                files: Seq::empty(),
                codes_count: Seq::empty(),
                total_files_count: total_files_count as nat,
                duration: None,
            }),
    {
        let results = Results {
            files: Vec::new(),
            codes_count: Vec::new(),
            total_files_count,
            duration: None,
        };
        assert(file_views(results.files@) =~= Seq::empty());
        assert(code_count_views(results.codes_count@) =~= Seq::empty());
        results
    }

    /// Records a file with its violations behind the files recorded so far.
    /// A path that is already recorded, or a violation without a location,
    /// is refused: the snapshot is then left as it was.
    pub fn insert_file(&mut self, path: String, violations: Vec<Violation>) -> (inserted: bool)
        requires
            old(self).wf(),
        ensures
            final(self).wf(),
            inserted <==> !paths(old(self)@.files).contains(path@) && positive_spans(
                violation_views(violations@),
            ),
            inserted ==> final(self)@ == (ResultsView {
                files: old(self)@.files.push(
                    FileView { path: path@, violations: violation_views(violations@) },
                ),
                ..old(self)@
            }),
            !inserted ==> final(self)@ == old(self)@,
    {
        let mut i: usize = 0;
        while i < self.files.len()
            invariant
                i <= self.files.len(),
                *self == *old(self),
                old(self).wf(),
                forall|k: int| 0 <= k < i ==> self.files[k].path@ != path@,
            decreases self.files.len() - i,
        {
            if self.files[i].path == path {
                assert(paths(self@.files)[i as int] == path@);
                return false;
            }
            i = i + 1;
        }
        let mut k: usize = 0;
        while k < violations.len()
            invariant
                k <= violations.len(),
                *self == *old(self),
                old(self).wf(),
                forall|n: int| 0 <= n < k ==> violations[n].span.wf(),
            decreases violations.len() - k,
        {
            if violations[k].span.line < 1 || violations[k].span.column < 1 {
                assert(!violation_views(violations@)[k as int].span.wf());
                return false;
            }
            k = k + 1;
        }
        let ghost file = FileView { path: path@, violations: violation_views(violations@) };
        self.files.push(FileEntry { path, violations });
        proof {
            let before = old(self)@.files;
            assert(file_views(self.files@) =~= before.push(file));
            assert(paths(before.push(file)) =~= paths(before).push(file.path));
            assert(!paths(before).contains(file.path)) by {
                if paths(before).contains(file.path) {
                    let at = choose|at: int| 0 <= at < paths(before).len() && paths(before)[at]
                        == file.path;
                    assert(self.files[at].path@ == file.path);
                }
            }
            assert(distinct_paths(before.push(file)));
            assert(positive_spans(file.violations)) by {
                assert forall|n: int| 0 <= n < file.violations.len() implies (
                #[trigger] file.violations[n]).span.wf() by {
                    assert(violations[n].span.wf());
                }
            }
        }
        true
    }

    /// Records the tally of a rule behind the tallies recorded so far. A
    /// code that is already tallied is refused: the snapshot is then left
    /// as it was.
    pub fn insert_count(&mut self, code: String, count: usize) -> (inserted: bool)
        requires
            old(self).wf(),
        ensures
            final(self).wf(),
            inserted <==> !codes(old(self)@.codes_count).contains(code@),
            inserted ==> final(self)@ == (ResultsView {
                codes_count: old(self)@.codes_count.push(
                    CodeCountView { code: code@, count: count as nat },
                ),
                ..old(self)@
            }),
            !inserted ==> final(self)@ == old(self)@,
    {
        let mut i: usize = 0;
        while i < self.codes_count.len()
            invariant
                i <= self.codes_count.len(),
                *self == *old(self),
                old(self).wf(),
                forall|k: int| 0 <= k < i ==> self.codes_count[k].code@ != code@,
            decreases self.codes_count.len() - i,
        {
            if self.codes_count[i].code == code {
                assert(codes(self@.codes_count)[i as int] == code@);
                return false;
            }
            i = i + 1;
        }
        let ghost tally = CodeCountView { code: code@, count: count as nat };
        self.codes_count.push(CodeCount { code, count });
        proof {
            let before = old(self)@.codes_count;
            assert(code_count_views(self.codes_count@) =~= before.push(tally));
            assert(codes(before.push(tally)) =~= codes(before).push(tally.code));
            assert(!codes(before).contains(tally.code)) by {
                if codes(before).contains(tally.code) {
                    let at = choose|at: int| 0 <= at < codes(before).len() && codes(before)[at]
                        == tally.code;
                    assert(self.codes_count[at].code@ == tally.code);
                }
            }
            assert(distinct_codes(before.push(tally)));
        }
        true
    }
}

impl Clone for Results {
    fn clone(&self) -> (copy: Results)
        ensures
            copy@ == self@,
    {
        let mut files: Vec<FileEntry> = Vec::new();
        let mut i: usize = 0;
        while i < self.files.len()
            invariant
                i <= self.files.len(),
                files.len() == i,
                forall|k: int| 0 <= k < i ==> files[k]@ == self.files[k]@,
            decreases self.files.len() - i,
        {
            files.push(self.files[i].clone());
            i = i + 1;
        }
        assert(file_views(files@) =~= file_views(self.files@));
        let mut codes_count: Vec<CodeCount> = Vec::new();
        let mut j: usize = 0;
        while j < self.codes_count.len()
            invariant
                j <= self.codes_count.len(),
                codes_count.len() == j,
                forall|k: int| 0 <= k < j ==> codes_count[k]@ == self.codes_count[k]@,
            decreases self.codes_count.len() - j,
        {
            codes_count.push(self.codes_count[j].clone());
            j = j + 1;
        }
        assert(code_count_views(codes_count@) =~= code_count_views(self.codes_count@));
        let duration = match &self.duration {
            Some(elapsed) => Some(elapsed.clone()),
            None => None,
        };
        Results { files, codes_count, total_files_count: self.total_files_count, duration }
    }
}

} // verus!
