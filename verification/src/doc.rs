//! Trusted access to the underlying document.
//!
//! The document is an `umya_spreadsheet::Workbook`. This module gives the
//! workbook a mathematical reading — total maps from (sheet, row, column) to
//! the raw value, formula text, style colors and number-format code of each
//! cell — and declares one thin accessor per document operation the editor
//! uses. Only the contracts here are taken on trust; everything above them
//! is verified.
use umya_spreadsheet::Color;
use umya_spreadsheet::PatternValues;
use umya_spreadsheet::Workbook;
use vstd::prelude::*;

use crate::marks::hex_digit_val;

verus! {

#[verifier::external_type_specification]
#[verifier::external_body]
pub struct ExWorkbook(Workbook);

/// Whether every worksheet of the workbook has been deserialized, so that
/// reading a sheet cannot fail. Workbooks built fresh or read eagerly are
/// ready; only lazily read workbooks are not.
pub uninterp spec fn doc_ready(book: Workbook) -> bool;

/// The names of the worksheets, in sheet order.
pub uninterp spec fn doc_sheet_names(book: Workbook) -> Seq<Seq<char>>;

/// The raw stored value of every cell, as the text the document reports for
/// it; the empty sequence for cells that do not exist.
pub uninterp spec fn doc_values(book: Workbook) -> Map<(int, int, int), Seq<char>>;

/// The formula text of every cell; empty for cells holding no formula.
pub uninterp spec fn doc_formulas(book: Workbook) -> Map<(int, int, int), Seq<char>>;

/// The ARGB text of every cell's pattern-fill foreground color; empty where
/// no such color is set.
pub uninterp spec fn doc_bg(book: Workbook) -> Map<(int, int, int), Seq<char>>;

/// The ARGB text of every cell's font color; empty where the cell has no
/// font record at all (a font with an unset color reads as fully zero).
pub uninterp spec fn doc_font(book: Workbook) -> Map<(int, int, int), Seq<char>>;

/// The number-format code of every cell, or `None` where the cell carries no
/// number format.
pub uninterp spec fn doc_formats(book: Workbook) -> Map<(int, int, int), Option<Seq<char>>>;

/// The (highest used row, highest used column) of every sheet; 0 means no
/// used cell on that axis.
pub uninterp spec fn doc_extent(book: Workbook) -> Map<int, (int, int)>;

/// What `to_formatted_string` renders for a raw value under a format code.
pub uninterp spec fn formatted_of(value: Seq<char>, code: Seq<char>) -> Seq<char>;

/// A canonical ARGB color text: exactly eight upper-case hex digits, as the
/// document itself writes colors.
pub open spec fn is_canonical_argb(s: Seq<char>) -> bool {
    &&& s.len() == 8
    &&& forall|k: int|
        0 <= k < 8 ==> (hex_digit_val(#[trigger] s[k]) is Some && !('a' <= s[k] <= 'f'))
}

/// The key of one cell in the document maps.
pub open spec fn cell_key(sheet: int, row: int, col: int) -> (int, int, int) {
    (sheet, row, col)
}

/// Relies on `Workbook::sheet_count`: the number of worksheets.
#[verifier::external_body]
pub(crate) fn sheet_count(book: &Workbook) -> (n: usize)
    ensures
        n == doc_sheet_names(*book).len(),
{
    book.sheet_count()
}

/// Relies on `Workbook::sheet_collection_no_check` and `Worksheet::name`:
/// the name of the worksheet at the given index.
#[verifier::external_body]
pub(crate) fn sheet_name(book: &Workbook, idx: usize) -> (r: String)
    requires
        idx < doc_sheet_names(*book).len(),
    ensures
        r@ == doc_sheet_names(*book)[idx as int],
{
    book.sheet_collection_no_check()[idx].name().to_string()
}

/// Relies on `Workbook::sheet` and `Worksheet::highest_column_and_row`: the
/// (highest used row, highest used column) of the sheet, 0 where unused.
#[verifier::external_body]
pub(crate) fn sheet_extent(book: &Workbook, idx: usize) -> (r: (u32, u32))
    requires
        doc_ready(*book),
        idx < doc_sheet_names(*book).len(),
    ensures
        doc_extent(*book)[idx as int] == (r.0 as int, r.1 as int),
{
    let (col, row) = book.sheet(idx).unwrap().highest_column_and_row();
    (row, col)
}

/// Relies on `Workbook::sheet`, `Worksheet::cell_value` and
/// `CellValue::value`: the raw stored text of a cell, empty for a cell that
/// does not exist.
#[verifier::external_body]
pub(crate) fn cell_value_at(book: &Workbook, idx: usize, row: u32, col: u32) -> (r: String)
    requires
        doc_ready(*book),
        idx < doc_sheet_names(*book).len(),
    ensures
        r@ == doc_values(*book)[cell_key(idx as int, row as int, col as int)],
{
    book.sheet(idx).unwrap().cell_value((col, row)).value().to_string()
}

/// Relies on `Workbook::sheet`, `Worksheet::cell_value` and
/// `CellValue::formula`: the formula text of a cell, empty where the cell
/// holds no formula.
#[verifier::external_body]
pub(crate) fn cell_formula_at(book: &Workbook, idx: usize, row: u32, col: u32) -> (r: String)
    requires
        doc_ready(*book),
        idx < doc_sheet_names(*book).len(),
    ensures
        r@ == doc_formulas(*book)[cell_key(idx as int, row as int, col as int)],
{
    book.sheet(idx).unwrap().cell_value((col, row)).formula().to_string()
}

/// Relies on `Workbook::sheet_mut`, `Worksheet::cell_mut` and
/// `Cell::set_value_string`: stores the given text as the cell's raw value,
/// exactly as given, and removes any formula the cell held. A newly
/// materialized cell may inherit row or column styling, so the style maps
/// are only known to be unchanged away from the touched cell.
#[verifier::external_body]
pub(crate) fn set_cell_value_at(book: &mut Workbook, idx: usize, row: u32, col: u32, v: &str)
    requires
        doc_ready(*old(book)),
        idx < doc_sheet_names(*old(book)).len(),
        row >= 1,
        col >= 1,
    ensures
        doc_ready(*final(book)),
        doc_sheet_names(*final(book)) == doc_sheet_names(*old(book)),
        doc_values(*final(book)) == doc_values(*old(book)).insert(
            cell_key(idx as int, row as int, col as int),
            v@,
        ),
        doc_formulas(*final(book)) == doc_formulas(*old(book)).insert(
            cell_key(idx as int, row as int, col as int),
            Seq::<char>::empty(),
        ),
        forall|k: (int, int, int)|
            k != cell_key(idx as int, row as int, col as int) ==> #[trigger] doc_bg(
                *final(book),
            )[k] == doc_bg(*old(book))[k],
        forall|k: (int, int, int)|
            k != cell_key(idx as int, row as int, col as int) ==> #[trigger] doc_font(
                *final(book),
            )[k] == doc_font(*old(book))[k],
        forall|k: (int, int, int)|
            k != cell_key(idx as int, row as int, col as int) ==> #[trigger] doc_formats(
                *final(book),
            )[k] == doc_formats(*old(book))[k],
{
    book.sheet_mut(idx).unwrap().cell_mut((col, row)).set_value_string(v);
}

/// Relies on `Workbook::sheet` and `Worksheet::cell`, then
/// `Style::fill`, `Fill::pattern_fill`, `PatternFill::foreground_color` and
/// `Color::argb_str`: the cell's background color text, empty where no
/// pattern-fill foreground color exists.
#[verifier::external_body]
pub(crate) fn cell_bg_argb_at(book: &Workbook, idx: usize, row: u32, col: u32) -> (r: String)
    requires
        doc_ready(*book),
        idx < doc_sheet_names(*book).len(),
    ensures
        r@ == doc_bg(*book)[cell_key(idx as int, row as int, col as int)],
{
    book.sheet(idx)
        .unwrap()
        .cell((col, row))
        .and_then(|c| c.style().fill())
        .and_then(|f| f.pattern_fill())
        .and_then(|pf| pf.foreground_color())
        .map(|color| color.argb_str())
        .unwrap_or_default()
}

/// Relies on `Workbook::sheet` and `Worksheet::cell`, then `Style::font` and
/// `Font::color`/`Color::argb_str`: the cell's font color text, empty where
/// the cell has no font record.
#[verifier::external_body]
pub(crate) fn cell_font_argb_at(book: &Workbook, idx: usize, row: u32, col: u32) -> (r: String)
    requires
        doc_ready(*book),
        idx < doc_sheet_names(*book).len(),
    ensures
        r@ == doc_font(*book)[cell_key(idx as int, row as int, col as int)],
{
    book.sheet(idx)
        .unwrap()
        .cell((col, row))
        .and_then(|c| c.style().font())
        .map(|f| f.color().argb_str())
        .unwrap_or_default()
}

/// Relies on `Workbook::sheet`, `Worksheet::cell`, `Style::number_format`
/// and `NumberingFormat::format_code`: the cell's number-format code, or
/// `None` where the cell carries no number format.
#[verifier::external_body]
pub(crate) fn cell_format_code_at(book: &Workbook, idx: usize, row: u32, col: u32) -> (r: Option<
    String,
>)
    requires
        doc_ready(*book),
        idx < doc_sheet_names(*book).len(),
    ensures
        match r {
            Some(code) => doc_formats(*book)[cell_key(idx as int, row as int, col as int)]
                == Some(code@),
            None => doc_formats(*book)[cell_key(idx as int, row as int, col as int)] is None,
        },
{
    book.sheet(idx)
        .unwrap()
        .cell((col, row))
        .and_then(|c| c.style().number_format())
        .map(|nf| nf.format_code().to_string())
}

/// Relies on `Workbook::sheet_mut`, `Worksheet::cell_mut`, `Style::font_mut`,
/// `Font::set_color` and `Color::set_argb_str`: sets the cell's font color.
/// `set_argb_str` parses the text and the stored color reads back as the
/// same canonical eight-digit ARGB text.
#[verifier::external_body]
pub(crate) fn set_cell_font_argb_at(
    book: &mut Workbook,
    idx: usize,
    row: u32,
    col: u32,
    argb: &str,
)
    requires
        doc_ready(*old(book)),
        idx < doc_sheet_names(*old(book)).len(),
        row >= 1,
        col >= 1,
        is_canonical_argb(argb@),
    ensures
        doc_ready(*final(book)),
        doc_sheet_names(*final(book)) == doc_sheet_names(*old(book)),
        doc_values(*final(book)) == doc_values(*old(book)),
        doc_formulas(*final(book)) == doc_formulas(*old(book)),
        doc_font(*final(book)) == doc_font(*old(book)).insert(
            cell_key(idx as int, row as int, col as int),
            argb@,
        ),
        doc_bg(*old(book))[cell_key(idx as int, row as int, col as int)] != Seq::<char>::empty()
            ==> doc_bg(*final(book))[cell_key(idx as int, row as int, col as int)] == doc_bg(
            *old(book),
        )[cell_key(idx as int, row as int, col as int)],
        forall|k: (int, int, int)|
            k != cell_key(idx as int, row as int, col as int) ==> #[trigger] doc_bg(
                *final(book),
            )[k] == doc_bg(*old(book))[k],
        forall|k: (int, int, int)|
            k != cell_key(idx as int, row as int, col as int) ==> #[trigger] doc_formats(
                *final(book),
            )[k] == doc_formats(*old(book))[k],
{
    let mut color = Color::default();
    color.set_argb_str(argb);
    book.sheet_mut(idx).unwrap().cell_mut((col, row)).style_mut().font_mut().set_color(color);
}

/// Relies on `Workbook::sheet_mut`, `Worksheet::cell_mut`,
/// `Fill::pattern_fill_mut`, `PatternFill::set_foreground_color` and
/// `PatternFill::set_pattern_type`: sets a solid background of the given
/// color on the cell.
#[verifier::external_body]
pub(crate) fn set_cell_bg_solid_at(book: &mut Workbook, idx: usize, row: u32, col: u32, argb: &str)
    requires
        doc_ready(*old(book)),
        idx < doc_sheet_names(*old(book)).len(),
        row >= 1,
        col >= 1,
        is_canonical_argb(argb@),
    ensures
        doc_ready(*final(book)),
        doc_sheet_names(*final(book)) == doc_sheet_names(*old(book)),
        doc_values(*final(book)) == doc_values(*old(book)),
        doc_formulas(*final(book)) == doc_formulas(*old(book)),
        doc_bg(*final(book)) == doc_bg(*old(book)).insert(
            cell_key(idx as int, row as int, col as int),
            argb@,
        ),
        doc_font(*old(book))[cell_key(idx as int, row as int, col as int)] != Seq::<char>::empty()
            ==> doc_font(*final(book))[cell_key(idx as int, row as int, col as int)] == doc_font(
            *old(book),
        )[cell_key(idx as int, row as int, col as int)],
        forall|k: (int, int, int)|
            k != cell_key(idx as int, row as int, col as int) ==> #[trigger] doc_font(
                *final(book),
            )[k] == doc_font(*old(book))[k],
        forall|k: (int, int, int)|
            k != cell_key(idx as int, row as int, col as int) ==> #[trigger] doc_formats(
                *final(book),
            )[k] == doc_formats(*old(book))[k],
{
    let mut color = Color::default();
    color.set_argb_str(argb);
    let pf = book.sheet_mut(idx).unwrap().cell_mut((col, row)).style_mut().fill_mut()
        .pattern_fill_mut();
    pf.set_foreground_color(color);
    pf.set_pattern_type(PatternValues::Solid);
}

/// Relies on `Workbook::sheet_mut`, `Worksheet::cell_mut`,
/// `PatternFill::set_pattern_type` and `PatternFill::remove_foreground_color`:
/// removes any background pattern and color from the cell, so the background
/// color reads back empty.
#[verifier::external_body]
pub(crate) fn clear_cell_bg_at(book: &mut Workbook, idx: usize, row: u32, col: u32)
    requires
        doc_ready(*old(book)),
        idx < doc_sheet_names(*old(book)).len(),
        row >= 1,
        col >= 1,
    ensures
        doc_ready(*final(book)),
        doc_sheet_names(*final(book)) == doc_sheet_names(*old(book)),
        doc_values(*final(book)) == doc_values(*old(book)),
        doc_formulas(*final(book)) == doc_formulas(*old(book)),
        doc_bg(*final(book)) == doc_bg(*old(book)).insert(
            cell_key(idx as int, row as int, col as int),
            Seq::<char>::empty(),
        ),
        doc_font(*old(book))[cell_key(idx as int, row as int, col as int)] != Seq::<char>::empty()
            ==> doc_font(*final(book))[cell_key(idx as int, row as int, col as int)] == doc_font(
            *old(book),
        )[cell_key(idx as int, row as int, col as int)],
        forall|k: (int, int, int)|
            k != cell_key(idx as int, row as int, col as int) ==> #[trigger] doc_font(
                *final(book),
            )[k] == doc_font(*old(book))[k],
        forall|k: (int, int, int)|
            k != cell_key(idx as int, row as int, col as int) ==> #[trigger] doc_formats(
                *final(book),
            )[k] == doc_formats(*old(book))[k],
{
    let pf = book.sheet_mut(idx).unwrap().cell_mut((col, row)).style_mut().fill_mut()
        .pattern_fill_mut();
    pf.set_pattern_type(PatternValues::None);
    pf.remove_foreground_color();
}

/// Relies on `Workbook::sheet`, `Worksheet::cells` and `Cell::coordinate`:
/// the (row, column) coordinates of every cell record the sheet holds. A
/// cell with no record has no style, so away from the listed coordinates
/// both style colors read back empty.
#[verifier::external_body]
pub(crate) fn used_cells(book: &Workbook, idx: usize) -> (r: Vec<(u32, u32)>)
    requires
        doc_ready(*book),
        idx < doc_sheet_names(*book).len(),
    ensures
        forall|row: u32, col: u32|
            !r@.contains((row, col)) ==> #[trigger] doc_bg(*book)[cell_key(
                idx as int,
                row as int,
                col as int,
            )] == Seq::<char>::empty(),
        forall|row: u32, col: u32|
            !r@.contains((row, col)) ==> #[trigger] doc_font(*book)[cell_key(
                idx as int,
                row as int,
                col as int,
            )] == Seq::<char>::empty(),
{
    book.sheet(idx)
        .unwrap()
        .cells()
        .iter()
        .map(|c| {
            let coord = c.coordinate();
            (coord.row_num(), coord.col_num())
        })
        .collect()
}

/// Relies on `umya_spreadsheet::helper::number_format::to_formatted_string`:
/// the rendering depends on the raw value and the format code alone, and an
/// empty value renders as the empty string. The formatter is only handed
/// tame inputs: a plain numeric code (no quoted literals, escapes, brackets
/// or fraction marks, a bounded scale shorthand and at most five sections),
/// or one of the three canonical date patterns together with a value in
/// renderable day-number shape — on anything wilder the formatter itself can
/// abort.
#[verifier::external_body]
pub(crate) fn format_value(value: &str, code: &str) -> (r: String)
    requires
        crate::format::plain_numeric_code(code@) || ((code@ == "yyyy-mm-dd"@ || code@
            == "yyyy-mm-dd hh:mm:ss"@ || code@ == "hh:mm:ss"@) && crate::format::spec_date_serial(
            value@,
        )),
    ensures
        r@ == formatted_of(value@, code@),
        value@.len() == 0 ==> r@.len() == 0,
{
    umya_spreadsheet::helper::number_format::to_formatted_string(value, code)
}

} // verus!
