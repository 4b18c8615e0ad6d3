//! Table rendering, through `comfy_table`.
//!
//! The library decides what goes in each cell; `comfy_table` lays the
//! cells out. The layout also depends on the terminal's width, which
//! decides how a dynamic arrangement wraps; the drawn text is named
//! [`table_text`] of the cells, the styling and that width.
use vstd::prelude::*;
use comfy_table::{ContentArrangement, Row, Table};
use crate::attachments::strings_view;

verus! {

/// How a table adapts its columns to the terminal
/// (`comfy_table::ContentArrangement`).
#[derive(Clone, Copy, Debug, PartialEq, Eq, Structural)]
pub enum TableArrangement {
    /// No arrangement: columns are as wide as their content.
    Disabled,
    /// Columns wrap to fit the terminal width.
    Dynamic,
    /// Like `Dynamic`, and the table always uses the full width.
    DynamicFullWidth,
}

impl TableArrangement {
    /// The arrangement used when neither the global nor the account
    /// configuration sets one.
    pub fn default_arrangement() -> (r: TableArrangement)
        ensures
            r == TableArrangement::Dynamic,
    {
        TableArrangement::Dynamic
    }
}

/// The preset that draws the table with thin UTF-8 lines and a dotted
/// header separator.
///
/// Trusted: returns `comfy_table::presets::UTF8_FULL_CONDENSED`, whose
/// value in the crate's source is the string stated here.
#[verifier::external_body]
pub(crate) fn default_table_preset() -> (r: String)
    ensures
        r@ == seq![
            '│', '│', '─', '─', '╞', '═', '╪', '╡', '┆', ' ', ' ', ' ', ' ', '┬', '┴', '┌', '┐', '└', '┘',
        ],
{
    comfy_table::presets::UTF8_FULL_CONDENSED.to_string()
}

/// The views of the rows of a table.
pub open spec fn rows_view(rows: Seq<Vec<String>>) -> Seq<Seq<Seq<char>>> {
    rows.map_values(|r: Vec<String>| strings_view(r@))
}

/// The text `comfy_table` draws for a table with this border preset and
/// arrangement, these header cells and these body rows (each row capped
/// at `row_height` lines), when the terminal is `width` columns wide
/// (`None` when no width is known).
pub uninterp spec fn table_text(
    preset: Seq<char>,
    arrangement: TableArrangement,
    header: Seq<Seq<char>>,
    rows: Seq<Seq<Seq<char>>>,
    row_height: usize,
    width: Option<u16>,
) -> Seq<char>;

/// Draws a table.
///
/// Trusted: builds a `comfy_table::Table` with `load_preset`,
/// `set_content_arrangement` (the variant of the same name), `set_header`
/// and `add_row` (each row with `Row::max_height(row_height)`), and
/// formats it with its `Display` impl. Stated: the text is a function of
/// these arguments and of the terminal's width, which `comfy_table` reads
/// itself; which width it read is left open.
#[verifier::external_body]
pub(crate) fn render_table(
    preset: &str,
    arrangement: TableArrangement,
    header: Vec<String>,
    rows: Vec<Vec<String>>,
    row_height: usize,
) -> (r: String)
    ensures
        exists|w: Option<u16>|
            r@ == #[trigger] table_text(
                preset@,
                arrangement,
                strings_view(header@),
                rows_view(rows@),
                row_height,
                w,
            ),
{
    let a = match arrangement {
        TableArrangement::Disabled => ContentArrangement::Disabled,
        TableArrangement::Dynamic => ContentArrangement::Dynamic,
        TableArrangement::DynamicFullWidth => ContentArrangement::DynamicFullWidth,
    };
    let mut table = Table::new();
    table.load_preset(preset).set_content_arrangement(a).set_header(header);
    for cells in rows {
        let mut row = Row::from(cells);
        row.max_height(row_height);
        table.add_row(row);
    }
    table.to_string()
}

} // verus!
