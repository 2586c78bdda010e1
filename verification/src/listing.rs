//! The per-file violation listing of a terminal report.

use crate::decimal::{decimal, to_decimal};
use crate::snapshot::{file_views, violation_views, FileEntry, FileView, Span, Violation, ViolationView};
use crate::styling::{segment_views, Segment, SegmentView, Style};
use vstd::prelude::*;
use vstd::string::StringExecFns;

verus! {

/// A piece of text in a style.
pub open spec fn segment(text: Seq<char>, style: Style) -> SegmentView {
    SegmentView { text, style }
}

/// A location as it is shown: `line:column`.
pub open spec fn location_text(span: Span) -> Seq<char> {
    decimal(span.line as nat) + ":"@ + decimal(span.column as nat)
}

/// The two lines shown for one violation: the rule code with the
/// suggestion, then the location with the source line.
pub open spec fn violation_segments(violation: ViolationView) -> Seq<SegmentView> {
    seq![
        segment("  "@, Style::Plain),
        segment(violation.rule, Style::YellowBold),
        segment(":\t"@, Style::Plain),
        segment(violation.suggestion, Style::Bold),
        segment("\n"@, Style::Plain),
        segment("  "@, Style::Plain),
        segment(location_text(violation.span), Style::BlueBold),
        segment("\t"@, Style::Plain),
        segment("|"@, Style::BlueBold),
        segment(" "@, Style::Plain),
        segment(violation.line, Style::Plain),
        segment("\n"@, Style::Plain),
    ]
}

/// The lines shown for a run of violations, in order.
pub open spec fn violations_segments(violations: Seq<ViolationView>) -> Seq<SegmentView>
    decreases violations.len(),
{
    if violations.len() == 0 {
        Seq::empty()
    } else {
        violations_segments(violations.drop_last()) + violation_segments(violations.last())
    }
}

/// The header line of a file's block: `<path>, detected <N> violations:`.
pub open spec fn header_segments(path: Seq<char>, count: nat) -> Seq<SegmentView> {
    seq![
        segment(path, Style::BlueBold),
        segment(", detected "@, Style::Plain),
        segment(decimal(count), Style::RedBold),
        segment(" violations:\n"@, Style::Plain),
    ]
}

/// The block shown for one file: nothing at all for a file without
/// violations; otherwise the header, the violations, and a blank line.
pub open spec fn file_segments(file: FileView) -> Seq<SegmentView> {
    if file.violations.len() == 0 {
        Seq::empty()
    } else {
        header_segments(file.path, file.violations.len()) + violations_segments(file.violations)
            + seq![segment("\n"@, Style::Plain)]
    }
}

/// The whole listing: the blocks of the files, in the snapshot's order.
pub open spec fn listing_segments(files: Seq<FileView>) -> Seq<SegmentView>
    decreases files.len(),
{
    if files.len() == 0 {
        Seq::empty()
    } else {
        listing_segments(files.drop_last()) + file_segments(files.last())
    }
}

/// Whether a file has at least one violation.
pub open spec fn has_violations(file: FileView) -> bool {
    file.violations.len() > 0
}

/// The files that have at least one violation, in their order.
pub open spec fn files_with_violations(files: Seq<FileView>) -> Seq<FileView> {
    files.filter(|file: FileView| has_violations(file))
}

fn put(out: &mut Vec<Segment>, text: String, style: Style)
    ensures
        segment_views(final(out)@) == segment_views(old(out)@).push(segment(text@, style)),
{
    out.push(Segment { text, style });
}

fn location(span: &Span) -> (text: String)
    ensures
        text@ == location_text(*span),
{
    let mut text = to_decimal(span.line);
    text.append(":");
    text.append(to_decimal(span.column).as_str());
    text
}

fn put_violation(out: &mut Vec<Segment>, violation: &Violation)
    ensures
        segment_views(final(out)@) == segment_views(old(out)@) + violation_segments(violation@),
{
    put(out, "  ".to_owned(), Style::Plain);
    put(out, violation.rule.clone(), Style::YellowBold);
    put(out, ":\t".to_owned(), Style::Plain);
    put(out, violation.suggestion.clone(), Style::Bold);
    put(out, "\n".to_owned(), Style::Plain);
    put(out, "  ".to_owned(), Style::Plain);
    put(out, location(&violation.span), Style::BlueBold);
    put(out, "\t".to_owned(), Style::Plain);
    put(out, "|".to_owned(), Style::BlueBold);
    put(out, " ".to_owned(), Style::Plain);
    put(out, violation.line.clone(), Style::Plain);
    put(out, "\n".to_owned(), Style::Plain);
}

fn put_file(out: &mut Vec<Segment>, file: &FileEntry)
    ensures
        segment_views(final(out)@) == segment_views(old(out)@) + file_segments(file@),
{
    let count = file.violations.len();
    if count == 0 {
        return ;
    }
    put(out, file.path.clone(), Style::BlueBold);
    put(out, ", detected ".to_owned(), Style::Plain);
    put(out, to_decimal(count), Style::RedBold);
    put(out, " violations:\n".to_owned(), Style::Plain);
    let ghost header = segment_views(old(out)@) + header_segments(file@.path, count as nat);
    let mut i: usize = 0;
    while i < count
        invariant
            i <= count,
            count == file.violations.len(),
            segment_views(out@) == header + violations_segments(
                violation_views(file.violations@).take(i as int),
            ),
        decreases count - i,
    {
        put_violation(out, &file.violations[i]);
        proof {
            let views = violation_views(file.violations@);
            assert(views.take(i as int + 1).drop_last() =~= views.take(i as int));
        }
        i = i + 1;
    }
    put(out, "\n".to_owned(), Style::Plain);
    proof {
        let views = violation_views(file.violations@);
        assert(views.take(count as int) =~= views);
    }
}

/// Lays out the listing of a run of files.
pub fn listing(files: &Vec<FileEntry>) -> (out: Vec<Segment>)
    ensures
        segment_views(out@) == listing_segments(file_views(files@)),
{
    let mut out: Vec<Segment> = Vec::new();
    let mut i: usize = 0;
    while i < files.len()
        invariant
            i <= files.len(),
            segment_views(out@) == listing_segments(file_views(files@).take(i as int)),
        decreases files.len() - i,
    {
        put_file(&mut out, &files[i]);
        proof {
            let views = file_views(files@);
            assert(views.take(i as int + 1).drop_last() =~= views.take(i as int));
        }
        i = i + 1;
    }
    proof {
        assert(file_views(files@).take(i as int) =~= file_views(files@));
    }
    out
}

/// A file without violations leaves no trace in the listing: the listing of
/// a run of files is the listing of those among them that have violations.
pub proof fn lemma_listing_skips_clean_files(files: Seq<FileView>)
    ensures
        forall|i: int|
            0 <= i < files.len() && !has_violations(files[i]) ==> #[trigger] file_segments(
                files[i],
            ) == Seq::<SegmentView>::empty(),
        listing_segments(files) == listing_segments(files_with_violations(files)),
    decreases files.len(),
{
    reveal(Seq::filter);
    if files.len() > 0 {
        lemma_listing_skips_clean_files(files.drop_last());
        let kept = files_with_violations(files.drop_last());
        if has_violations(files.last()) {
            assert(kept.push(files.last()).drop_last() =~= kept);
        }
    }
}

} // verus!
