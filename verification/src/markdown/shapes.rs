//! What the renderer measures of each line of a markdown text before it
//! wraps it, and whether it can lay the lines out in a given width.

use crate::markdown::Skin;
use ratskin::RatSkin;
use termimad::wrap::composite_kind_widths;
use termimad::{FmtComposite, FmtLine, TblFit};
use vstd::prelude::*;

verus! {

/// The measures of a paragraph, a list item, a quote or a cell of a table.
#[derive(Debug, Clone, Copy)]
pub struct CellShape {
    /// The columns that its bullet or mark takes, before its text.
    pub bullet: usize,
    /// The columns that it takes in all, on one line.
    pub length: usize,
}

/// The measures of a line of a markdown text.
#[derive(Debug)]
pub enum LineShape {
    /// A line outside tables: a paragraph, a header, a list item, a quote
    /// or code.
    Text(CellShape),
    /// A row of a table, with its cells.
    Row(Vec<CellShape>),
    /// A rule between the rows of a table, with the number of its columns.
    Rule(usize),
    /// A horizontal rule.
    Bar,
}

/// A line's measures as a mathematical value.
pub enum LineShapeView {
    Text(CellShape),
    Row(Seq<CellShape>),
    Rule(usize),
    Bar,
}

impl View for LineShape {
    type V = LineShapeView;

    open spec fn view(&self) -> LineShapeView {
        match *self {
            LineShape::Text(cell) => LineShapeView::Text(cell),
            LineShape::Row(cells) => LineShapeView::Row(cells@),
            LineShape::Rule(columns) => LineShapeView::Rule(columns),
            LineShape::Bar => LineShapeView::Bar,
        }
    }
}

/// The measures of lines as mathematical values.
pub open spec fn shapes_view(lines: Seq<LineShape>) -> Seq<LineShapeView> {
    lines.map_values(|line: LineShape| line@)
}

/// The measures that the renderer takes of the lines of a markdown text,
/// with the styles that it comes with: one for each line that it keeps,
/// which is every line but the fences around code.
pub uninterp spec fn measured_lines(text: Seq<char>) -> Seq<LineShapeView>;

/// The widths that the renderer gives to the columns of a table that has
/// `columns` columns and whose rows hold cells of the lengths `seen`, in
/// `room` columns of the screen.
pub uninterp spec fn fitted_widths(seen: Seq<Seq<usize>>, columns: usize, room: usize) -> Seq<
    usize,
>;

/// The lengths of rows of cells as mathematical values.
pub open spec fn rows_view(seen: Seq<Vec<usize>>) -> Seq<Seq<usize>> {
    seen.map_values(|row: Vec<usize>| row@)
}

/// `RatSkin::parse_text`, `FmtLine::from` and
/// `termimad::wrap::composite_kind_widths`: the lines that the renderer
/// reads in a markdown text, each as it measures it before it lays out
/// tables and wraps lines. A composite's bullet is the width that the
/// renderer keeps for it on the first line, its length the field
/// `visible_length`; a rule has as many columns as alignments. The contract
/// names the result.
#[verifier::external_body]
pub(crate) fn measure(skin: &Skin, text: &str) -> (lines: Vec<LineShape>)
    ensures
        shapes_view(lines@) == measured_lines(text@),
{
    let skin = &skin.skin.skin;
    let shape = |cell: &FmtComposite<'_>| CellShape {
        bullet: composite_kind_widths(cell.kind, skin).0,
        length: cell.visible_length,
    };
    let lines = RatSkin::parse_text(text).lines.into_iter();
    lines.map(|line| match FmtLine::from(line, skin) {
        FmtLine::Normal(cell) => LineShape::Text(shape(&cell)),
        FmtLine::TableRow(row) => LineShape::Row(row.cells.iter().map(shape).collect()),
        FmtLine::TableRule(rule) => LineShape::Rule(rule.aligns.len()),
        FmtLine::HorizontalRule => LineShape::Bar,
    }).collect()
}

/// `TblFit::new`, `TblFit::see_cell` and `TblFit::fit`: the widths that
/// the renderer gives to the columns of a table for which the screen has
/// four columns for each of its own and one more. The fitter is shown each
/// cell's length under the number of its column, and gives one width for
/// each column. The contract names the widths.
#[verifier::external_body]
pub(crate) fn fit_columns(seen: &Vec<Vec<usize>>, columns: usize, room: usize) -> (widths: Vec<
    usize,
>)
    requires
        room >= columns * 4 + 1,
    ensures
        widths@ == fitted_widths(rows_view(seen@), columns, room),
        widths@.len() == columns,
{
    match TblFit::new(columns, room) {
        Ok(mut fit) => {
            for row in seen {
                for (column, length) in row.iter().enumerate() {
                    fit.see_cell(column, *length);
                }
            }
            fit.fit().col_widths
        },
        Err(_) => Vec::new(),
    }
}

/// Whether the renderer can lay out a composite in `room` columns. It
/// wraps one that is longer, and gives up where the bullet alone is wider
/// than the room.
pub open spec fn cell_fits(cell: CellShape, room: usize) -> bool {
    cell.length > room ==> cell.bullet <= room
}

/// Whether the renderer can lay out a line outside tables in `width`
/// columns. Under three columns it wraps nothing.
pub open spec fn text_line_fits(line: LineShapeView, width: u16) -> bool {
    line matches LineShapeView::Text(cell) ==> width >= 3 ==> cell_fits(cell, width as usize)
}

/// Whether the line is part of a table: a row or a rule.
pub open spec fn is_table_part(line: LineShapeView) -> bool {
    line is Row || line is Rule
}

/// The number of columns of a part of a table.
pub open spec fn columns_of(line: LineShapeView) -> int {
    match line {
        LineShapeView::Row(cells) => cells.len() as int,
        LineShapeView::Rule(columns) => columns as int,
        _ => 0,
    }
}

/// The number of columns of the table in the lines from `from` to `to`:
/// that of its widest part.
pub open spec fn table_columns(lines: Seq<LineShapeView>, from: int, to: int) -> int
    decreases to - from,
{
    if to <= from {
        0
    } else {
        let before = table_columns(lines, from, to - 1);
        let last = columns_of(lines[to - 1]);
        if last > before {
            last
        } else {
            before
        }
    }
}

/// The lengths of the cells of a row; none for any other line.
pub open spec fn lengths_of(line: LineShapeView) -> Seq<usize> {
    match line {
        LineShapeView::Row(cells) => cells.map_values(|cell: CellShape| cell.length),
        _ => Seq::empty(),
    }
}

/// The lengths of the cells of the table in the lines from `from` to `to`,
/// row by row.
pub open spec fn seen_lengths(lines: Seq<LineShapeView>, from: int, to: int) -> Seq<Seq<usize>> {
    Seq::new((to - from) as nat, |k: int| lengths_of(lines[from + k]))
}

/// Whether the renderer can lay out the cells of a row in columns of the
/// widths `widths`: each cell in the width of its column.
pub open spec fn cells_fit(cells: Seq<CellShape>, widths: Seq<usize>) -> bool {
    forall|c: int| 0 <= c < cells.len() ==> cell_fits(#[trigger] cells[c], widths[c])
}

/// Whether the renderer can lay out the cells of a row of which it keeps
/// only the first `kept`, each three columns wide. A row that has fewer
/// cells must hold none that is longer than three: the renderer wraps such
/// a cell, and gives up on the lines that it adds for the rest of it.
pub open spec fn cells_fit_cut(cells: Seq<CellShape>, kept: int) -> bool {
    if cells.len() < kept {
        forall|c: int| 0 <= c < cells.len() ==> (#[trigger] cells[c]).length <= 3
    } else {
        forall|c: int| 0 <= c < kept ==> cell_fits(#[trigger] cells[c], 3)
    }
}

/// Whether the renderer can lay out a line of a table whose columns have
/// the widths `widths`.
pub open spec fn row_fits(line: LineShapeView, widths: Seq<usize>) -> bool {
    line matches LineShapeView::Row(cells) ==> cells_fit(cells, widths)
}

/// Whether the renderer can lay out a line of a table of which it keeps
/// only the first `kept` columns.
pub open spec fn row_fits_cut(line: LineShapeView, kept: int) -> bool {
    line matches LineShapeView::Row(cells) ==> cells_fit_cut(cells, kept)
}

/// Whether the renderer can lay out the table in the lines from `from` to
/// `to` in `width` columns. Where the screen has four columns for each
/// column of the table and one more, it fits the columns to the screen;
/// else it keeps as many columns as have that room, each three wide. A
/// table without columns and a screen without columns are left alone.
pub open spec fn table_fits(lines: Seq<LineShapeView>, from: int, to: int, width: u16) -> bool {
    let columns = table_columns(lines, from, to);
    if columns == 0 || width == 0 {
        true
    } else if width >= columns * 4 + 1 {
        let widths = fitted_widths(seen_lengths(lines, from, to), columns as usize, width as usize);
        forall|r: int| from <= r < to ==> row_fits(#[trigger] lines[r], widths)
    } else {
        forall|r: int| from <= r < to ==> row_fits_cut(#[trigger] lines[r], (width - 1) / 4)
    }
}

/// Whether the renderer can lay out the tables that end at or after the
/// line `at`, where the lines from `start` to `at` are parts of one table.
/// A table is a run of rows and rules that no other row or rule touches.
pub open spec fn tables_fit(lines: Seq<LineShapeView>, start: int, at: int, width: u16) -> bool
    decreases lines.len() - at,
{
    if at < 0 || at >= lines.len() {
        table_fits(lines, start, at, width)
    } else if is_table_part(lines[at]) {
        tables_fit(lines, start, at + 1, width)
    } else {
        table_fits(lines, start, at, width) && tables_fit(lines, at + 1, at + 1, width)
    }
}

/// Whether the renderer can lay out lines of these measures in `width`
/// columns: each line outside tables, and each table.
pub open spec fn shapes_fit(lines: Seq<LineShapeView>, width: u16) -> bool {
    &&& forall|k: int| 0 <= k < lines.len() ==> text_line_fits(#[trigger] lines[k], width)
    &&& tables_fit(lines, 0, 0, width)
}

/// Whether the renderer can lay out a markdown text in `width` columns.
pub open spec fn text_fits(text: Seq<char>, width: u16) -> bool {
    shapes_fit(measured_lines(text), width)
}

/// No part of a table has more columns than the table.
pub proof fn lemma_columns_bound(lines: Seq<LineShapeView>, from: int, to: int, r: int)
    requires
        from <= r < to,
    ensures
        0 <= columns_of(lines[r]) <= table_columns(lines, from, to),
    decreases to - from,
{
    if r < to - 1 {
        lemma_columns_bound(lines, from, to - 1, r);
    }
}

/// Whether the renderer can lay out a composite in `room` columns.
pub fn check_cell(cell: &CellShape, room: usize) -> (fine: bool)
    ensures
        fine == cell_fits(*cell, room),
{
    cell.length <= room || cell.bullet <= room
}

/// Whether the renderer can lay out the cells of a row in columns of the
/// widths `widths`.
pub fn check_row(cells: &Vec<CellShape>, widths: &Vec<usize>) -> (fine: bool)
    requires
        cells@.len() <= widths@.len(),
    ensures
        fine == cells_fit(cells@, widths@),
{
    let n = cells.len();
    let mut c: usize = 0;
    while c < n
        invariant
            n == cells@.len(),
            n <= widths@.len(),
            c <= n,
            forall|k: int| 0 <= k < c ==> cell_fits(#[trigger] cells@[k], widths@[k]),
        decreases n - c,
    {
        if !check_cell(&cells[c], widths[c]) {
            assert(!cell_fits(cells@[c as int], widths@[c as int]));
            return false;
        }
        c += 1;
    }
    true
}

/// Whether the renderer can lay out the cells of a row of which it keeps
/// the first `kept`, each in three columns.
pub fn check_row_cut(cells: &Vec<CellShape>, kept: usize) -> (fine: bool)
    ensures
        fine == cells_fit_cut(cells@, kept as int),
{
    let n = cells.len();
    let short = n < kept;
    let end = if short {
        n
    } else {
        kept
    };
    let mut c: usize = 0;
    while c < end
        invariant
            n == cells@.len(),
            end <= n,
            c <= end,
            short == (n < kept),
            end == if short {
                n
            } else {
                kept
            },
            forall|k: int|
                0 <= k < c ==> if short {
                    (#[trigger] cells@[k]).length <= 3
                } else {
                    cell_fits(cells@[k], 3)
                },
        decreases end - c,
    {
        let fine = if short {
            cells[c].length <= 3
        } else {
            check_cell(&cells[c], 3)
        };
        if !fine {
            return false;
        }
        c += 1;
    }
    true
}

/// The lengths of the cells of a row.
pub fn row_lengths(cells: &Vec<CellShape>) -> (lengths: Vec<usize>)
    ensures
        lengths@ == lengths_of(LineShapeView::Row(cells@)),
{
    let n = cells.len();
    let mut lengths: Vec<usize> = Vec::new();
    let mut c: usize = 0;
    while c < n
        invariant
            n == cells@.len(),
            c <= n,
            lengths@.len() == c,
            forall|k: int| 0 <= k < c ==> lengths@[k] == (#[trigger] cells@[k]).length,
        decreases n - c,
    {
        lengths.push(cells[c].length);
        c += 1;
    }
    assert(lengths@ =~= lengths_of(LineShapeView::Row(cells@)));
    lengths
}

/// Whether the renderer can lay out the table in the lines from `from` to
/// `to` in `width` columns.
pub fn check_table(lines: &Vec<LineShape>, from: usize, to: usize, width: u16) -> (fine: bool)
    requires
        from <= to <= lines@.len(),
    ensures
        fine == table_fits(shapes_view(lines@), from as int, to as int, width),
{
    let ghost shapes = shapes_view(lines@);
    let mut columns: usize = 0;
    let mut r: usize = from;
    while r < to
        invariant
            shapes == shapes_view(lines@),
            from <= r <= to <= lines@.len(),
            columns == table_columns(shapes, from as int, r as int),
        decreases to - r,
    {
        assert(shapes[r as int] == lines@[r as int]@);
        let here: usize = match &lines[r] {
            LineShape::Row(cells) => cells.len(),
            LineShape::Rule(count) => *count,
            _ => 0,
        };
        if here > columns {
            columns = here;
        }
        r += 1;
    }
    if columns == 0 || width == 0 {
        return true;
    }
    let kept: usize = ((width - 1) / 4) as usize;
    if columns <= kept {
        let mut seen: Vec<Vec<usize>> = Vec::new();
        let mut r: usize = from;
        while r < to
            invariant
                shapes == shapes_view(lines@),
                from <= r <= to <= lines@.len(),
                seen@.len() == r - from,
                forall|k: int|
                    0 <= k < r - from ==> (#[trigger] seen@[k])@ == lengths_of(shapes[from + k]),
            decreases to - r,
        {
            assert(shapes[r as int] == lines@[r as int]@);
            let lengths = match &lines[r] {
                LineShape::Row(cells) => row_lengths(cells),
                _ => Vec::new(),
            };
            seen.push(lengths);
            r += 1;
        }
        assert(rows_view(seen@) =~= seen_lengths(shapes, from as int, to as int));
        let widths = fit_columns(&seen, columns, width as usize);
        let mut r: usize = from;
        while r < to
            invariant
                shapes == shapes_view(lines@),
                from <= r <= to <= lines@.len(),
                widths@.len() == columns,
                widths@ == fitted_widths(
                    seen_lengths(shapes, from as int, to as int),
                    columns,
                    width as usize,
                ),
                columns == table_columns(shapes, from as int, to as int),
                columns != 0,
                width >= columns * 4 + 1,
                forall|k: int| from <= k < r ==> row_fits(#[trigger] shapes[k], widths@),
            decreases to - r,
        {
            assert(shapes[r as int] == lines@[r as int]@);
            proof {
                lemma_columns_bound(shapes, from as int, to as int, r as int);
            }
            if let LineShape::Row(cells) = &lines[r] {
                if !check_row(cells, &widths) {
                    assert(!row_fits(shapes[r as int], widths@));
                    return false;
                }
            }
            r += 1;
        }
        true
    } else {
        let mut r: usize = from;
        while r < to
            invariant
                shapes == shapes_view(lines@),
                from <= r <= to <= lines@.len(),
                columns == table_columns(shapes, from as int, to as int),
                columns != 0,
                0 < width < columns * 4 + 1,
                kept == (width - 1) / 4,
                forall|k: int| from <= k < r ==> row_fits_cut(#[trigger] shapes[k], kept as int),
            decreases to - r,
        {
            assert(shapes[r as int] == lines@[r as int]@);
            if let LineShape::Row(cells) = &lines[r] {
                if !check_row_cut(cells, kept) {
                    assert(!row_fits_cut(shapes[r as int], kept as int));
                    return false;
                }
            }
            r += 1;
        }
        true
    }
}

/// Whether the renderer can lay out lines of these measures in `width`
/// columns.
pub fn check_shapes(lines: &Vec<LineShape>, width: u16) -> (fine: bool)
    ensures
        fine == shapes_fit(shapes_view(lines@), width),
{
    let ghost shapes = shapes_view(lines@);
    let n = lines.len();
    let mut i: usize = 0;
    while i < n
        invariant
            shapes == shapes_view(lines@),
            n == lines@.len(),
            i <= n,
            forall|k: int| 0 <= k < i ==> text_line_fits(#[trigger] shapes[k], width),
        decreases n - i,
    {
        assert(shapes[i as int] == lines@[i as int]@);
        if let LineShape::Text(cell) = &lines[i] {
            if width >= 3 && !check_cell(cell, width as usize) {
                return false;
            }
        }
        i += 1;
    }
    let mut start: usize = 0;
    let mut i: usize = 0;
    while i < n
        invariant
            shapes == shapes_view(lines@),
            n == lines@.len(),
            start <= i <= n,
            tables_fit(shapes, 0, 0, width) == tables_fit(shapes, start as int, i as int, width),
        decreases n - i,
    {
        assert(shapes[i as int] == lines@[i as int]@);
        let part = match &lines[i] {
            LineShape::Row(_) => true,
            LineShape::Rule(_) => true,
            _ => false,
        };
        if !part {
            if !check_table(lines, start, i, width) {
                return false;
            }
            start = i + 1;
        }
        i += 1;
    }
    check_table(lines, start, n, width)
}

/// Whether the renderer can lay out a markdown text in `width` columns.
pub fn check_text(skin: &Skin, text: &str, width: u16) -> (fine: bool)
    ensures
        fine == text_fits(text@, width),
{
    let lines = measure(skin, text);
    check_shapes(&lines, width)
}

} // verus!
