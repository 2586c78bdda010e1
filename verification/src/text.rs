//! The terminal report: the per-file listing, the summary table and the
//! closing line.

use crate::decimal::{decimal, to_decimal};
use crate::listing::{listing, listing_segments};
use crate::rules::{covers, RuleRegistry};
use crate::snapshot::{ElapsedView, Results, ResultsView};
use crate::styling::{is_painting, paint_all};
use crate::summary::{summary, summary_rows};
use crate::table::{render_table, row_cells, table_text};
use vstd::prelude::*;
use vstd::string::StringExecFns;

verus! {

/// The text of an elapsed time with two decimal places and its unit, as the
/// standard library prints a duration.
pub uninterp spec fn elapsed_text(secs: nat, nanos: nat) -> Seq<char>;

/// `std::time::Duration`'s `Debug` output at precision two, for the
/// duration of `secs` seconds and `nanos` nanoseconds.
#[verifier::external_body]
fn format_elapsed(secs: u64, nanos: u32) -> (out: String)
    requires
        nanos < 1_000_000_000,
    ensures
        out@ == elapsed_text(secs as nat, nanos as nat),
{
    format!("{:.2?}", std::time::Duration::new(secs, nanos))
}

/// The summary table of a snapshot as it is shown: one row per tallied
/// rule under the titles `Rule Code`, `Description` and `Violations`.
pub open spec fn summary_table(
    results: ResultsView,
    rules: Map<Seq<char>, Seq<char>>,
) -> Seq<char> {
    table_text(
        "Rule Code"@,
        "Description"@,
        "Violations"@,
        row_cells(summary(results.codes_count, rules)),
    )
}

/// The summary part of a report: the table on lines of its own.
pub open spec fn summary_text(table: Seq<char>) -> Seq<char> {
    table + "\n"@
}

/// The closing line of a report: `Analysed <N> files in : <elapsed>`.
pub open spec fn closing_text(total_files_count: nat, elapsed: Seq<char>) -> Seq<char> {
    "Analysed "@ + decimal(total_files_count) + " files in : "@ + elapsed + "\n"@
}

/// The closing line of a snapshot whose analysis took `elapsed`.
pub open spec fn closing(results: ResultsView, elapsed: ElapsedView) -> Seq<char> {
    closing_text(results.total_files_count, elapsed_text(elapsed.secs, elapsed.nanos))
}

/// `out` is a report of the snapshot: a painting of the listing, then the
/// summary table, then the closing line.
pub open spec fn is_report(
    results: ResultsView,
    rules: Map<Seq<char>, Seq<char>>,
    out: Seq<char>,
) -> bool {
    exists|listing: Seq<char>| #[trigger]
        is_painting(listing_segments(results.files), listing) && out == listing + summary_text(
            summary_table(results, rules),
        ) + closing(results, results.duration->0)
}

/// The output strategy that writes a report for a terminal.
pub struct Text {}

impl Text {
    /// The per-file listing: for every file with violations, in the
    /// snapshot's order, a header, two lines per violation and a blank line.
    /// Files without violations are passed over.
    pub fn output_files_with_violations(results: Results) -> (out: String)
        ensures
            is_painting(listing_segments(results@.files), out@),
    {
        paint_all(&listing(&results.files))
    }

    /// Puts a rendered table on lines of its own.
    pub fn summary_block(table: &str) -> (out: String)
        ensures
            out@ == summary_text(table@),
    {
        let mut out = table.to_owned();
        out.append("\n");
        out
    }

    /// The summary table: one row per tallied rule with its description and
    /// its count, most frequent first.
    pub fn output_summary(results: Results, rules: &RuleRegistry) -> (out: String)
        requires
            covers(rules@, results@.codes_count),
        ensures
            out@ == summary_text(summary_table(results@, rules@)),
    {
        let rows = summary_rows(&results.codes_count, rules);
        let table = render_table("Rule Code", "Description", "Violations", &rows);
        Self::summary_block(table.as_str())
    }

    /// The closing line for a number of analysed files and an elapsed time
    /// that is already written out.
    pub fn closing_line(total_files_count: usize, elapsed: &str) -> (out: String)
        ensures
            out@ == closing_text(total_files_count as nat, elapsed@),
    {
        let mut out = "Analysed ".to_owned();
        out.append(to_decimal(total_files_count).as_str());
        out.append(" files in : ");
        out.append(elapsed);
        out.append("\n");
        out
    }

    /// The whole report: listing, summary table and closing line. The
    /// analysis must have finished, and every tallied rule must be
    /// registered.
    pub fn output(results: Results, rules: &RuleRegistry) -> (out: String)
        requires
            results.duration is Some,
            covers(rules@, results@.codes_count),
        ensures
            is_report(results@, rules@, out@),
    {
        let mut out = Self::output_files_with_violations(results.clone());
        let ghost listing = out@;
        let table = Self::output_summary(results.clone(), rules);
        out.append(table.as_str());
        let elapsed = match &results.duration {
            Some(elapsed) => format_elapsed(elapsed.secs(), elapsed.subsec_nanos()),
            None => vstd::pervasive::unreached(),
        };
        let last_line = Self::closing_line(results.total_files_count, elapsed.as_str());
        out.append(last_line.as_str());
        proof {
            assert(out@ == listing + summary_text(summary_table(results@, rules@)) + closing(
                results@,
                results@.duration->0,
            ));
        }
        out
    }
}

} // verus!
