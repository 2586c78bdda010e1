//! The summary table of a terminal report.

use cli_table::format::Justify;
use cli_table::{Cell, CellStruct, ColorChoice, Style, Table};
use vstd::prelude::*;

verus! {

/// One row of the summary table, as mathematical data.
pub struct SummaryRowView {
    pub code: Seq<char>,
    pub description: Seq<char>,
    pub count: nat,
}

/// One row of the summary table: a rule, what it checks, and how often it
/// fired.
#[derive(Debug, PartialEq, Eq)]
pub struct SummaryRow {
    pub code: String,
    pub description: String,
    pub count: usize,
}

impl View for SummaryRow {
    type V = SummaryRowView;

    open spec fn view(&self) -> SummaryRowView {
        SummaryRowView {
            code: self.code@,
            description: self.description@,
            count: self.count as nat,
        }
    }
}

/// The views of a run of rows.
pub open spec fn row_views(rows: Seq<SummaryRow>) -> Seq<SummaryRowView> {
    rows.map_values(|row: SummaryRow| row@)
}

/// The cells of a run of rows, as the table is given them.
pub open spec fn row_cells(rows: Seq<SummaryRowView>) -> Seq<(Seq<char>, Seq<char>, nat)> {
    rows.map_values(|row: SummaryRowView| (row.code, row.description, row.count))
}

/// The text of a bold, bordered table of three columns under a bold title
/// row, the last column holding numbers aligned to the right, with its
/// styling written as ANSI escape sequences.
pub uninterp spec fn table_text(
    first_title: Seq<char>,
    second_title: Seq<char>,
    third_title: Seq<char>,
    rows: Seq<(Seq<char>, Seq<char>, nat)>,
) -> Seq<char>;

/// `cli_table::Table::table`, with `title`, `bold`, `color_choice` and
/// `display`: lays the rows out under the three titles and hands back the
/// displayed text. ANSI output is asked for whatever the terminal is, so the
/// text is determined by the titles and the rows alone.
#[verifier::external_body]
pub(crate) fn render_table(
    first_title: &str,
    second_title: &str,
    third_title: &str,
    rows: &Vec<SummaryRow>,
) -> (out: String)
    ensures
        out@ == table_text(
            first_title@,
            second_title@,
            third_title@,
            row_cells(row_views(rows@)),
        ),
{
    let cells: Vec<Vec<CellStruct>> = rows.iter().map(
        |row| vec![
            row.code.as_str().cell(),
            row.description.as_str().cell(),
            row.count.cell().justify(Justify::Right),
        ],
    ).collect();
    let title = vec![
        first_title.cell().bold(true),
        second_title.cell().bold(true),
        third_title.cell().bold(true),
    ];
    let table = cells.table().title(title).bold(true).color_choice(ColorChoice::AlwaysAnsi);
    table.display().unwrap().to_string()
}

} // verus!
