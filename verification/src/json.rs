//! The JSON export: the snapshot without the files that have no violations.

use crate::listing::{files_with_violations, has_violations};
use crate::snapshot::{
    distinct_paths, file_views, paths, FileEntry, FileView, Results, ResultsView,
};
use vstd::prelude::*;

verus! {

/// The snapshot that is exported: the files without violations are left
/// out, everything else is passed through.
pub open spec fn exported(results: ResultsView) -> ResultsView {
    ResultsView {
        files: files_with_violations(results.files),
        codes_count: results.codes_count,
        total_files_count: results.total_files_count,
        duration: results.duration,
    }
}

/// Filtering keeps a file if and only if it is there and has a violation,
/// and leaves the paths distinct.
proof fn lemma_files_with_violations(files: Seq<FileView>)
    ensures
        forall|file: FileView| #[trigger]
            files_with_violations(files).contains(file) <==> files.contains(file)
                && has_violations(file),
        distinct_paths(files) ==> distinct_paths(files_with_violations(files)),
    decreases files.len(),
{
    reveal(Seq::filter);
    let kept = files_with_violations(files);
    if files.len() == 0 {
        assert forall|file: FileView| !files.contains(file) by {}
    } else {
        let front = files.drop_last();
        let last = files.last();
        let kept_front = files_with_violations(front);
        lemma_files_with_violations(front);
        assert forall|file: FileView| #[trigger]
            kept.contains(file) <==> files.contains(file) && has_violations(file) by {
            if kept.contains(file) {
                let at = choose|at: int| 0 <= at < kept.len() && kept[at] == file;
                if has_violations(last) && at == kept.len() - 1 {
                    assert(files[files.len() - 1] == file);
                } else {
                    assert(kept_front[at] == file);
                    assert(kept_front.contains(file));
                    let from = choose|from: int| 0 <= from < front.len() && front[from] == file;
                    assert(files[from] == file);
                }
            }
            if files.contains(file) && has_violations(file) {
                let from = choose|from: int| 0 <= from < files.len() && files[from] == file;
                if from == files.len() - 1 {
                    assert(kept[kept.len() - 1] == file);
                } else {
                    assert(front[from] == file);
                    assert(kept_front.contains(file));
                    let at = choose|at: int| 0 <= at < kept_front.len() && kept_front[at] == file;
                    assert(kept[at] == file);
                }
            }
        }
        if distinct_paths(files) {
            assert(paths(front) =~= paths(files).drop_last());
            assert(distinct_paths(front));
            if has_violations(last) {
                assert(paths(kept) =~= paths(kept_front).push(last.path));
                assert forall|at: int| 0 <= at < kept_front.len() implies paths(kept_front)[at]
                    != last.path by {
                    assert(kept_front.contains(kept_front[at]));
                    let from = choose|from: int|
                        0 <= from < front.len() && front[from] == kept_front[at];
                    assert(paths(files)[from] == kept_front[at].path);
                    assert(paths(files)[files.len() - 1] == last.path);
                }
                assert(distinct_paths(kept));
            }
        }
    }
}

/// The exported `files` hold exactly the files of the snapshot that have at
/// least one violation: nothing else is there, so every exported path is a
/// path of the snapshot, and a valid snapshot stays valid.
pub proof fn lemma_export_keeps_the_files_with_violations(results: ResultsView)
    ensures
        forall|file: FileView| #[trigger]
            exported(results).files.contains(file) <==> results.files.contains(file)
                && has_violations(file),
        forall|path: Seq<char>| #[trigger]
            paths(exported(results).files).contains(path) ==> paths(results.files).contains(path),
        results.wf() ==> exported(results).wf(),
{
    let kept = exported(results).files;
    lemma_files_with_violations(results.files);
    assert forall|path: Seq<char>| #[trigger] paths(kept).contains(path) implies paths(
        results.files,
    ).contains(path) by {
        let at = choose|at: int| 0 <= at < paths(kept).len() && paths(kept)[at] == path;
        assert(kept.contains(kept[at]));
        let from = choose|from: int|
            0 <= from < results.files.len() && results.files[from] == kept[at];
        assert(paths(results.files)[from] == path);
    }
    if results.wf() {
        assert forall|at: int| 0 <= at < kept.len() implies crate::snapshot::positive_spans(
            (#[trigger] kept[at]).violations,
        ) by {
            assert(kept.contains(kept[at]));
            let from = choose|from: int|
                0 <= from < results.files.len() && results.files[from] == kept[at];
            assert(crate::snapshot::positive_spans(results.files[from].violations));
        }
    }
}

/// Where a valid snapshot holds a file without violations, the exported
/// paths are a proper part of the snapshot's paths: each of them is a path
/// of the snapshot, and the path of that file is not among them.
pub proof fn lemma_export_is_a_proper_part(results: ResultsView, clean: int)
    requires
        results.wf(),
        0 <= clean < results.files.len(),
        !has_violations(results.files[clean]),
    ensures
        paths(exported(results).files).to_set().subset_of(paths(results.files).to_set()),
        paths(results.files).to_set().contains(results.files[clean].path),
        !paths(exported(results).files).to_set().contains(results.files[clean].path),
        exported(results).files.len() < results.files.len(),
{
    let kept = exported(results).files;
    let path = results.files[clean].path;
    lemma_export_keeps_the_files_with_violations(results);
    assert(paths(results.files)[clean] == path);
    if paths(kept).contains(path) {
        let at = choose|at: int| 0 <= at < paths(kept).len() && paths(kept)[at] == path;
        assert(kept.contains(kept[at]));
        let from = choose|from: int|
            0 <= from < results.files.len() && results.files[from] == kept[at];
        assert(paths(results.files)[from] == path);
        assert(from != clean);
    }
    vstd::seq_lib::seq_to_set_is_finite(paths(results.files));
    paths(kept).to_set().lemma_subset_not_in_lt(paths(results.files).to_set(), path);
    paths(kept).unique_seq_to_set();
    paths(results.files).unique_seq_to_set();
}

/// The output strategy that exports the snapshot as a JSON document.
pub struct Json {}

impl Json {
    /// The snapshot to serialise: a copy in which every file without
    /// violations is removed from `files`.
    pub fn output(results: Results) -> (out: Results)
        ensures
            out@ == exported(results@),
            forall|file: FileView| #[trigger]
                out@.files.contains(file) <==> results@.files.contains(file) && has_violations(
                    file,
                ),
            results.wf() ==> out.wf(),
    {
        let mut files: Vec<FileEntry> = Vec::new();
        let mut i: usize = 0;
        while i < results.files.len()
            invariant
                i <= results.files.len(),
                file_views(files@) == files_with_violations(
                    file_views(results.files@).take(i as int),
                ),
            decreases results.files.len() - i,
        {
            let file = &results.files[i];
            if !file.violations.is_empty() {
                files.push(file.clone());
            }
            proof {
                reveal(Seq::filter);
                let views = file_views(results.files@);
                assert(views.take(i as int + 1).drop_last() =~= views.take(i as int));
            }
            i = i + 1;
        }
        proof {
            assert(file_views(results.files@).take(i as int) =~= file_views(results.files@));
            lemma_export_keeps_the_files_with_violations(results@);
        }
        Results {
            files,
            codes_count: results.codes_count,
            total_files_count: results.total_files_count,
            duration: results.duration,
        }
    }
}

} // verus!
