//! The renderer: a table, read from a stream or held in memory, as lines of
//! aligned text.
//!
//! The rows are printed in batches. The columns of a batch are as wide as
//! the widest of their cells in that batch, and as their label where a
//! header is printed. A cell that is itself a table is printed below its
//! row, one step further in.

use vstd::prelude::*;
use vstd::string::*;
use crate::stream::{lines_model, Printer};
use crate::text::{byte_width, chars_of, push_char, push_spaces, repeated, text_width};
use crate::types::{schema_model, ColumnModel, ColumnType};
use crate::value::{
    cells_model, printable, printable_cells, printable_rows, printable_table, rows_model,
    Alignment, ReadOutcome, Row, Stream, TableModel, Value, ValueModel,
};
use crate::value_text::value_text;

verus! {

/// The number of rows after which a batch is printed.
pub const BATCH_SIZE: usize = 49;

/// The greater of two numbers.
pub open spec fn larger(a: nat, b: nat) -> nat {
    if a >= b {
        a
    } else {
        b
    }
}

/// Whether one of the columns has a name.
pub open spec fn has_name(types: Seq<ColumnModel>) -> bool {
    exists|i: int| 0 <= i < types.len() && (#[trigger] types[i]).name is Some
}

/// Whether the cells of one of the columns are tables.
pub open spec fn has_table(types: Seq<ColumnModel>) -> bool {
    exists|i: int| 0 <= i < types.len() && (#[trigger] types[i]).cell_type.is_table()
}

/// The width of a cell: the length in bytes of its text.
pub open spec fn cell_width(v: ValueModel) -> nat {
    byte_width(value_text(v))
}

/// The width of the widest cell of column `idx` in the first `n` rows.
pub open spec fn body_width(data: Seq<Seq<ValueModel>>, idx: int, n: int) -> nat
    decreases n,
{
    if n <= 0 {
        0
    } else {
        larger(body_width(data, idx, n - 1), cell_width(data[n - 1][idx]))
    }
}

/// The width of the label of column `idx` where a header is printed, and
/// nothing where none is.
pub open spec fn header_width(types: Seq<ColumnModel>, named: bool, idx: int) -> nat {
    if named {
        types[idx].label_width()
    } else {
        0
    }
}

/// The width of column `idx` in a batch: that of its widest cell in the
/// batch, or that of its label where a header is printed and the label is
/// wider.
pub open spec fn column_width(
    types: Seq<ColumnModel>,
    data: Seq<Seq<ValueModel>>,
    named: bool,
    idx: int,
) -> nat {
    larger(header_width(types, named, idx), body_width(data, idx, data.len() as int))
}

/// The widths of the columns of a batch.
pub open spec fn column_widths(
    types: Seq<ColumnModel>,
    data: Seq<Seq<ValueModel>>,
    named: bool,
) -> Seq<nat> {
    Seq::new(types.len(), |i: int| column_width(types, data, named, i))
}

/// Whether every row of `data` has `count` cells.
pub open spec fn rows_have(data: Seq<Seq<ValueModel>>, count: nat) -> bool {
    forall|i: int| 0 <= i < data.len() ==> (#[trigger] data[i]).len() == count
}

/// The width of the widest cell of a column is the width of one of its
/// cells, and no cell of the column is wider.
pub proof fn lemma_body_width_is_widest(data: Seq<Seq<ValueModel>>, idx: int, n: int)
    requires
        0 <= n <= data.len(),
    ensures
        forall|i: int| 0 <= i < n ==> cell_width(#[trigger] data[i][idx]) <= body_width(data, idx, n),
        n > 0 ==> exists|i: int| 0 <= i < n && cell_width(#[trigger] data[i][idx]) == body_width(data, idx, n),
        n == 0 ==> body_width(data, idx, n) == 0,
    decreases n,
{
    if n > 0 {
        lemma_body_width_is_widest(data, idx, n - 1);
        if n - 1 > 0 && body_width(data, idx, n) == body_width(data, idx, n - 1) {
            let i = choose|i: int|
                0 <= i < n - 1 && cell_width(#[trigger] data[i][idx]) == body_width(data, idx, n - 1);
            assert(cell_width(data[i][idx]) == body_width(data, idx, n));
        } else {
            assert(cell_width(data[n - 1][idx]) == body_width(data, idx, n));
        }
    }
}

/// Where a header is printed and the label of a column is at least as wide
/// as each of its cells in the batch, the column is as wide as its label.
/// Where a cell of the column is at least as wide as the label and as every
/// other cell, the column is as wide as that cell.
pub proof fn lemma_column_width(
    types: Seq<ColumnModel>,
    data: Seq<Seq<ValueModel>>,
    named: bool,
    idx: int,
)
    requires
        0 <= idx < types.len(),
    ensures
        (named && forall|i: int| 0 <= i < data.len() ==> cell_width(#[trigger] data[i][idx])
            <= types[idx].label_width()) ==> column_width(types, data, named, idx)
            == types[idx].label_width(),
        forall|r: int|
            (0 <= r < data.len() && header_width(types, named, idx) <= cell_width(
                #[trigger] data[r][idx],
            ) && forall|i: int| 0 <= i < data.len() ==> cell_width(#[trigger] data[i][idx])
                <= cell_width(data[r][idx])) ==> column_width(types, data, named, idx)
                == cell_width(data[r][idx]),
{
    lemma_body_width_is_widest(data, idx, data.len() as int);
}

/// Whether a cell with the value `v` is filled up with spaces to the width
/// of its column: every cell but a last one that is set on the left, behind
/// which the spaces would end the line.
pub open spec fn is_padded(v: ValueModel, is_last: bool) -> bool {
    !is_last || v.alignment() is Right
}

/// What stands for one cell in the line of its row: the text of the cell,
/// filled up with spaces to the width of its column and followed by one
/// space. The spaces stand in front of a number, a time or a duration, and
/// behind everything else. The last cell of a row is followed by no space,
/// and where it is set on the left it is not filled up either.
pub open spec fn cell_part(v: ValueModel, width: nat, is_last: bool) -> Seq<char> {
    let text = value_text(v);
    let spaces = repeated(' ', (width - byte_width(text)) as nat);
    let gap = if is_last {
        Seq::<char>::empty()
    } else {
        seq![' ']
    };
    match v.alignment() {
        Alignment::Right => spaces + text + gap,
        Alignment::Left => if is_last {
            text
        } else {
            text + spaces + gap
        },
    }
}

/// Whether each cell of a row that is filled up fits into its column.
pub open spec fn cells_fit(cells: Seq<ValueModel>, w: Seq<nat>) -> bool {
    forall|i: int|
        0 <= i < cells.len() && is_padded(#[trigger] cells[i], i + 1 == cells.len()) ==> w[i]
            >= cell_width(cells[i])
}

/// Whether the rows of a batch can be printed in columns of the widths `w`:
/// no row has more cells than there are widths, each cell that is filled up
/// fits into its column, and the tables among the cells can be printed.
pub open spec fn rows_fit(data: Seq<Seq<ValueModel>>, w: Seq<nat>) -> bool {
    forall|i: int|
        0 <= i < data.len() ==> (#[trigger] data[i]).len() <= w.len() && cells_fit(data[i], w)
            && printable_cells(data[i])
}

/// Whether each label of a header that is filled up fits into its column:
/// every label but the last.
pub open spec fn labels_fit(types: Seq<ColumnModel>, w: Seq<nat>) -> bool {
    forall|i: int| 0 <= i < types.len() - 1 ==> w[i] >= (#[trigger] types[i]).label_width()
}

/// What stands for the first `n` cells of a row in its line.
pub open spec fn cells_line(cells: Seq<ValueModel>, w: Seq<nat>, n: int) -> Seq<char>
    decreases n,
{
    if n <= 0 {
        Seq::empty()
    } else {
        cells_line(cells, w, n - 1) + cell_part(cells[n - 1], w[n - 1], n == cells.len())
    }
}

/// The line of a row: the indentation, then the cells.
pub open spec fn row_line(cells: Seq<ValueModel>, w: Seq<nat>, prefix: Seq<char>) -> Seq<char> {
    prefix + cells_line(cells, w, cells.len() as int)
}

/// What stands for one column in the header: its label, filled up with
/// spaces to the width of the column and followed by one space. The last
/// column gets neither.
pub open spec fn label_part(c: ColumnModel, width: nat, is_last: bool) -> Seq<char> {
    if is_last {
        c.label()
    } else {
        c.label() + repeated(' ', (width - c.label_width()) as nat) + seq![' ']
    }
}

/// What stands for the first `n` columns in the header.
pub open spec fn labels_line(types: Seq<ColumnModel>, w: Seq<nat>, n: int) -> Seq<char>
    decreases n,
{
    if n <= 0 {
        Seq::empty()
    } else {
        labels_line(types, w, n - 1) + label_part(types[n - 1], w[n - 1], n == types.len())
    }
}

/// The header: the indentation, then the labels.
pub open spec fn header_line(types: Seq<ColumnModel>, w: Seq<nat>, prefix: Seq<char>) -> Seq<char> {
    prefix + labels_line(types, w, types.len() as int)
}

/// The widths as numbers without bound.
pub open spec fn widths_model(w: Vec<usize>) -> Seq<nat> {
    Seq::new(w.len() as nat, |i: int| w[i] as nat)
}

/// Widens each column to its label, where a header is printed.
pub fn calculate_header_width(w: &mut Vec<usize>, types: &Vec<ColumnType>, has_name: bool)
    requires
        old(w).len() >= types.len(),
    ensures
        final(w).len() == old(w).len(),
        forall|i: int|
            0 <= i < types.len() ==> (#[trigger] final(w)[i]) as nat == larger(
                old(w)[i] as nat,
                header_width(schema_model(*types), has_name, i),
            ),
        forall|i: int| types.len() <= i < old(w).len() ==> #[trigger] final(w)[i] == old(w)[i],
{
    if has_name {
        let mut idx: usize = 0;
        while idx < types.len()
            invariant
                idx <= types.len(),
                w.len() == old(w).len(),
                w.len() >= types.len(),
                has_name,
                forall|i: int|
                    0 <= i < idx ==> (#[trigger] w[i]) as nat == larger(
                        old(w)[i] as nat,
                        header_width(schema_model(*types), has_name, i),
                    ),
                forall|i: int| idx <= i < w.len() ==> #[trigger] w[i] == old(w)[i],
            decreases types.len() - idx,
        {
            let label: usize = types[idx].len_or_0();
            assert(schema_model(*types)[idx as int] == types[idx as int]@);
            if label > w[idx] {
                w.set(idx, label);
            }
            idx = idx + 1;
        }
    }
}

/// Widens each column to the widest of its cells in `data`.
pub fn calculate_body_width(w: &mut Vec<usize>, data: &Vec<Row>, col_count: usize)
    requires
        old(w).len() >= col_count,
        rows_have(rows_model(*data), col_count as nat),
    ensures
        final(w).len() == old(w).len(),
        forall|i: int|
            0 <= i < col_count ==> (#[trigger] final(w)[i]) as nat == larger(
                old(w)[i] as nat,
                body_width(rows_model(*data), i, data.len() as int),
            ),
        forall|i: int| col_count <= i < old(w).len() ==> #[trigger] final(w)[i] == old(w)[i],
{
    let ghost model = rows_model(*data);
    let mut r: usize = 0;
    while r < data.len()
        invariant
            r <= data.len(),
            w.len() == old(w).len(),
            w.len() >= col_count,
            model == rows_model(*data),
            rows_have(model, col_count as nat),
            forall|i: int|
                0 <= i < col_count ==> (#[trigger] w[i]) as nat == larger(
                    old(w)[i] as nat,
                    body_width(model, i, r as int),
                ),
            forall|i: int| col_count <= i < w.len() ==> #[trigger] w[i] == old(w)[i],
        decreases data.len() - r,
    {
        let row = &data[r];
        assert(model[r as int] == row@);
        let ghost before = *w;
        let mut idx: usize = 0;
        while idx < row.cells.len()
            invariant
                idx <= row.cells.len(),
                row.cells.len() == col_count,
                w.len() == before.len(),
                w.len() >= col_count,
                0 <= r < data.len(),
                model == rows_model(*data),
                model[r as int] == row@,
                forall|i: int|
                    0 <= i < idx ==> (#[trigger] w[i]) as nat == larger(
                        before[i] as nat,
                        cell_width(model[r as int][i]),
                    ),
                forall|i: int| idx <= i < w.len() ==> #[trigger] w[i] == before[i],
            decreases row.cells.len() - idx,
        {
            let text = row.cells[idx].to_string();
            let l: usize = text_width(text.as_str());
            if l > w[idx] {
                w.set(idx, l);
            }
            idx = idx + 1;
        }
        r = r + 1;
    }
}

/// The line of the header.
pub fn header_text(w: &Vec<usize>, types: &Vec<ColumnType>, prefix: &str) -> (line: String)
    requires
        w.len() >= types.len(),
        labels_fit(schema_model(*types), widths_model(*w)),
    ensures
        line@ == header_line(schema_model(*types), widths_model(*w), prefix@),
{
    let ghost schema = schema_model(*types);
    let ghost wm = widths_model(*w);
    let mut header = String::from_str(prefix);
    let mut idx: usize = 0;
    while idx < types.len()
        invariant
            idx <= types.len(),
            w.len() >= types.len(),
            schema == schema_model(*types),
            wm == widths_model(*w),
            labels_fit(schema, wm),
            header@ == prefix@ + labels_line(schema, wm, idx as int),
        decreases types.len() - idx,
    {
        let val = &types[idx];
        assert(schema[idx as int] == val@ && wm[idx as int] == w[idx as int]);
        header.append(val.val_or_empty());
        if idx + 1 != types.len() {
            push_spaces(&mut header, w[idx] - val.len_or_0());
            push_char(&mut header, ' ');
        }
        idx = idx + 1;
    }
    header
}

/// Prints the header, where one is printed.
pub fn print_header(
    printer: &mut Printer,
    w: &Vec<usize>,
    types: &Vec<ColumnType>,
    has_name: bool,
    prefix: &str,
)
    requires
        w.len() >= types.len(),
        has_name ==> labels_fit(schema_model(*types), widths_model(*w)),
    ensures
        final(printer).errors == old(printer).errors,
        lines_model(final(printer).lines) == lines_model(old(printer).lines) + (if has_name {
            seq![header_line(schema_model(*types), widths_model(*w), prefix@)]
        } else {
            Seq::empty()
        }),
{
    if has_name {
        let header = header_text(w, types, prefix);
        printer.line(header.as_str());
    }
}

/// The line of a row.
pub fn row_text(w: &Vec<usize>, r: &Row, prefix: &str) -> (line: String)
    requires
        w.len() >= r.cells.len(),
        cells_fit(r@, widths_model(*w)),
    ensures
        line@ == row_line(r@, widths_model(*w), prefix@),
{
    let ghost cells = r@;
    let ghost wm = widths_model(*w);
    let cell_len: usize = r.cells.len();
    let mut row = String::from_str(prefix);
    let mut idx: usize = 0;
    while idx < cell_len
        invariant
            idx <= cell_len,
            cell_len == r.cells.len(),
            w.len() >= cell_len,
            cells == r@,
            wm == widths_model(*w),
            cells_fit(cells, wm),
            row@ == prefix@ + cells_line(cells, wm, idx as int),
        decreases cell_len - idx,
    {
        let c = &r.cells[idx];
        assert(cells[idx as int] == c@ && wm[idx as int] == w[idx as int]);
        let cell = c.to_string();
        let is_last: bool = idx + 1 == cell_len;
        match c.alignment() {
            Alignment::Right => {
                push_spaces(&mut row, w[idx] - text_width(cell.as_str()));
                row.append(cell.as_str());
                if !is_last {
                    push_char(&mut row, ' ');
                }
            },
            Alignment::Left => {
                row.append(cell.as_str());
                if !is_last {
                    push_spaces(&mut row, w[idx] - text_width(cell.as_str()));
                    push_char(&mut row, ' ');
                }
            },
        }
        idx = idx + 1;
    }
    row
}

/// Prints the line of a row.
pub fn print_row(printer: &mut Printer, w: &Vec<usize>, r: &Row, prefix: &str)
    requires
        w.len() >= r.cells.len(),
        cells_fit(r@, widths_model(*w)),
    ensures
        final(printer).errors == old(printer).errors,
        lines_model(final(printer).lines) == lines_model(old(printer).lines).push(
            row_line(r@, widths_model(*w), prefix@),
        ),
{
    let row = row_text(w, r, prefix);
    printer.line(row.as_str());
}

/// The lines of binary content, read as text from position `start` on, when
/// the characters up to `i` have been looked at and no line has ended
/// between the two. A line ends with a line feed, which is not part of it;
/// what stands behind the last line feed is a line too, unless it is empty.
/// Each line stands behind the indentation.
pub open spec fn lines_from(c: Seq<char>, start: int, i: int, prefix: Seq<char>) -> Seq<Seq<char>>
    decreases c.len() - i,
{
    if i < 0 || i >= c.len() {
        if 0 <= start < c.len() {
            seq![prefix + c.subrange(start, c.len() as int)]
        } else {
            Seq::empty()
        }
    } else if c[i] == '\n' {
        seq![prefix + c.subrange(start, i)] + lines_from(c, i + 1, i + 1, prefix)
    } else {
        lines_from(c, start, i + 1, prefix)
    }
}

/// The lines of binary content, read as text, each behind the indentation.
pub open spec fn binary_lines(c: Seq<char>, prefix: Seq<char>) -> Seq<Seq<char>> {
    lines_from(c, 0, 0, prefix)
}

/// The indentation one step further in.
pub open spec fn indented(prefix: Seq<char>) -> Seq<char> {
    prefix + repeated(' ', 4)
}

/// The number of rows in a batch: one where a column holds tables, so that
/// each of them is printed right below its row.
pub open spec fn batch_size(types: Seq<ColumnModel>) -> int {
    if has_table(types) {
        1
    } else {
        BATCH_SIZE as int
    }
}

/// Whether the renderer expands a cell with the value `v` in the pass
/// `pass`: tables in memory in the first pass, streams in the second, binary
/// content in the third.
pub open spec fn expands(pass: int, v: ValueModel) -> bool {
    (pass == 0 && v is Rows) || (pass == 1 && v is Stream) || (pass == 2 && v is Binary)
}

/// What is printed below a row for its cells from `j` on in one pass.
pub open spec fn nested_pass(cells: Seq<ValueModel>, pass: int, j: int, prefix: Seq<char>) -> Seq<
    Seq<char>,
>
    decreases cells, cells.len() - j,
{
    if j < 0 || j >= cells.len() {
        Seq::empty()
    } else {
        (match cells[j] {
            ValueModel::Rows(t) => if pass == 0 {
                render_table(t, prefix)
            } else {
                Seq::empty()
            },
            ValueModel::Stream(t) => if pass == 1 {
                render_table(t, prefix)
            } else {
                Seq::empty()
            },
            ValueModel::Binary(c) => if pass == 2 {
                binary_lines(c, prefix)
            } else {
                Seq::empty()
            },
            _ => Seq::empty(),
        }) + nested_pass(cells, pass, j + 1, prefix)
    }
}

/// What is printed below a row for the tables among its cells: first the
/// tables in memory, then the streams, then the binary content, each kind in
/// the order of the cells.
pub open spec fn nested_lines(cells: Seq<ValueModel>, prefix: Seq<char>) -> Seq<Seq<char>>
    decreases cells, cells.len() + 1,
{
    nested_pass(cells, 0, 0, prefix) + nested_pass(cells, 1, 0, prefix) + nested_pass(
        cells,
        2,
        0,
        prefix,
    )
}

/// The lines of the rows of a batch from row `i` on: the line of each row,
/// and below it what its cells expand to, one step further in.
pub open spec fn body_lines(data: Seq<Seq<ValueModel>>, w: Seq<nat>, i: int, prefix: Seq<char>) -> Seq<
    Seq<char>,
>
    decreases data, data.len() - i,
{
    if i < 0 || i >= data.len() {
        Seq::empty()
    } else {
        seq![row_line(data[i], w, prefix)] + nested_lines(data[i], indented(prefix)) + body_lines(
            data,
            w,
            i + 1,
            prefix,
        )
    }
}

/// The lines of a batch: the header where one is printed, then the rows.
pub open spec fn batch_lines(
    types: Seq<ColumnModel>,
    data: Seq<Seq<ValueModel>>,
    named: bool,
    prefix: Seq<char>,
) -> Seq<Seq<char>>
    decreases data, data.len() + 1,
{
    let w = column_widths(types, data, named);
    (if named {
        seq![header_line(types, w, prefix)]
    } else {
        Seq::empty()
    }) + body_lines(data, w, 0, prefix)
}

/// Where the batch that starts at row `start` ends.
pub open spec fn batch_end(types: Seq<ColumnModel>, rows: Seq<Seq<ValueModel>>, start: int) -> int {
    if start + batch_size(types) <= rows.len() {
        start + batch_size(types)
    } else {
        rows.len() as int
    }
}

/// The lines of the rows of a table from row `start` on, batch by batch.
pub open spec fn table_lines_from(
    types: Seq<ColumnModel>,
    rows: Seq<Seq<ValueModel>>,
    start: int,
    prefix: Seq<char>,
) -> Seq<Seq<char>>
    decreases rows, 2 * rows.len() + 2 - start,
{
    if start < 0 || start >= rows.len() {
        Seq::empty()
    } else {
        let end = batch_end(types, rows, start);
        proof {
            if start == 0 && end == rows.len() {
                assert(rows.subrange(start, end) =~= rows);
            }
        }
        batch_lines(types, rows.subrange(start, end), has_name(types), prefix) + table_lines_from(
            types,
            rows,
            end,
            prefix,
        )
    }
}

/// The lines of a table: its rows in batches, each batch under its own
/// header where a column has a name, with the widths that fit that batch.
pub open spec fn render_table(t: TableModel, prefix: Seq<char>) -> Seq<Seq<char>>
    decreases t, 0int,
{
    table_lines_from(t.types, t.rows, 0, prefix)
}

/// The lines of a value that is handed to the renderer: those of a table,
/// those of binary content, or the text of any other value on one line.
pub open spec fn value_lines(v: ValueModel) -> Seq<Seq<char>> {
    match v {
        ValueModel::Stream(t) => render_table(t, Seq::empty()),
        ValueModel::Rows(t) => render_table(t, Seq::empty()),
        ValueModel::Binary(c) => binary_lines(c, Seq::empty()),
        _ => seq![value_text(v)],
    }
}

/// What a pass prints depends only on the cells that the pass expands.
pub proof fn lemma_nested_pass_ignores(
    a: Seq<ValueModel>,
    b: Seq<ValueModel>,
    pass: int,
    j: int,
    prefix: Seq<char>,
)
    requires
        a.len() == b.len(),
        forall|k: int|
            0 <= k < a.len() && (expands(pass, #[trigger] a[k]) || expands(pass, b[k])) ==> a[k]
                == b[k],
    ensures
        nested_pass(a, pass, j, prefix) == nested_pass(b, pass, j, prefix),
    decreases a.len() - j,
{
    if 0 <= j < a.len() {
        lemma_nested_pass_ignores(a, b, pass, j + 1, prefix);
    }
}

/// Prints binary content as text, line by line, each line behind `prefix`.
pub fn print_binary(printer: &mut Printer, content: &str, prefix: &str)
    ensures
        final(printer).errors == old(printer).errors,
        lines_model(final(printer).lines) == lines_model(old(printer).lines) + binary_lines(
            content@,
            prefix@,
        ),
{
    let chars = chars_of(content);
    let ghost c = chars@;
    let ghost lines0 = lines_model(printer.lines);
    let mut line = String::from_str(prefix);
    let mut start: usize = 0;
    let mut i: usize = 0;
    while i < chars.len()
        invariant
            start <= i <= chars.len(),
            c == chars@,
            printer.errors == old(printer).errors,
            lines0 == lines_model(old(printer).lines),
            line@ == prefix@ + c.subrange(start as int, i as int),
            lines_model(printer.lines) + lines_from(c, start as int, i as int, prefix@) == lines0
                + binary_lines(c, prefix@),
        decreases chars.len() - i,
    {
        let ghost before = lines_model(printer.lines);
        let ghost from = start as int;
        if chars[i] == '\n' {
            printer.line(line.as_str());
            line = String::from_str(prefix);
            start = i + 1;
            assert(lines_model(printer.lines) + lines_from(c, i + 1, i + 1, prefix@) =~= before
                + lines_from(c, from, i as int, prefix@));
        } else {
            push_char(&mut line, chars[i]);
        }
        i = i + 1;
    }
    let ghost before = lines_model(printer.lines);
    if start < chars.len() {
        printer.line(line.as_str());
    }
}

/// Whether a batch that holds `held` rows is to be printed before another
/// row is added to it.
pub fn batch_is_full(held: usize, tabled: bool) -> (r: bool)
    ensures
        r == (held == BATCH_SIZE || tabled),
{
    held == BATCH_SIZE || tabled
}

/// Whether a column has a name, and whether the cells of one are tables.
pub fn schema_flags(types: &Vec<ColumnType>) -> (r: (bool, bool))
    ensures
        r.0 == has_name(schema_model(*types)),
        r.1 == has_table(schema_model(*types)),
{
    let ghost schema = schema_model(*types);
    let mut named = false;
    let mut tabled = false;
    let mut i: usize = 0;
    while i < types.len()
        invariant
            i <= types.len(),
            schema == schema_model(*types),
            named == exists|k: int| 0 <= k < i && (#[trigger] schema[k]).name is Some,
            tabled == exists|k: int| 0 <= k < i && (#[trigger] schema[k]).cell_type.is_table(),
        decreases types.len() - i,
    {
        assert(schema[i as int] == types[i as int]@);
        if types[i].cell_type.is_table() {
            tabled = true;
        }
        if types[i].name.is_some() {
            named = true;
        }
        i = i + 1;
    }
    (named, tabled)
}

fn zero_widths(count: usize) -> (w: Vec<usize>)
    ensures
        w.len() == count,
        forall|i: int| 0 <= i < count ==> #[trigger] w[i] == 0,
{
    let mut w: Vec<usize> = Vec::new();
    while w.len() < count
        invariant
            w.len() <= count,
            forall|i: int| 0 <= i < w.len() ==> #[trigger] w[i] == 0,
        decreases count - w.len(),
    {
        w.push(0);
    }
    w
}

/// Prints in one pass what the cells of a row expand to, and gives the
/// cells back with an empty value in place of each one that was expanded.
fn print_nested_pass(
    printer: &mut Printer,
    cells: Vec<Value>,
    pass: u8,
    prefix: &str,
    Ghost(origin): Ghost<Seq<ValueModel>>,
) -> (rest: Vec<Value>)
    requires
        printable_cells(origin),
        cells.len() == origin.len(),
        forall|j: int|
            0 <= j < cells.len() ==> (#[trigger] cells[j])@ == origin[j] || cells[j]@ is Empty,
    ensures
        final(printer).errors == old(printer).errors,
        lines_model(final(printer).lines) == lines_model(old(printer).lines) + nested_pass(
            cells_model(cells),
            pass as int,
            0,
            prefix@,
        ),
        rest.len() == cells.len(),
        forall|j: int|
            0 <= j < cells.len() ==> (#[trigger] rest[j])@ == if expands(pass as int, cells[j]@) {
                ValueModel::Empty
            } else {
                cells[j]@
            },
    decreases origin, 0int,
{
    let ghost model = cells_model(cells);
    let ghost lines0 = lines_model(printer.lines);
    let ghost total = nested_pass(model, pass as int, 0, prefix@);
    let mut out: Vec<Value> = Vec::new();
    for v in it: cells.into_iter()
        invariant
            it.seq() == cells@,
            model == cells_model(cells),
            cells.len() == origin.len(),
            printable_cells(origin),
            forall|j: int|
                0 <= j < cells.len() ==> (#[trigger] cells[j])@ == origin[j] || cells[j]@ is Empty,
            printer.errors == old(printer).errors,
            lines0 == lines_model(old(printer).lines),
            total == nested_pass(model, pass as int, 0, prefix@),
            out.len() == it.index(),
            forall|j: int|
                0 <= j < out.len() ==> (#[trigger] out[j])@ == if expands(pass as int, cells[j]@) {
                    ValueModel::Empty
                } else {
                    cells[j]@
                },
            lines_model(printer.lines) + nested_pass(model, pass as int, it.index() as int, prefix@)
                == lines0 + total,
    {
        let ghost j = it.index() as int;
        let ghost before = lines_model(printer.lines);
        match v {
            Value::Rows(r) => {
                if pass == 0 {
                    let mut s = Stream::new(r.types, r.rows);
                    print_prefixed(printer, &mut s, prefix);
                    out.push(Value::Empty);
                } else {
                    out.push(Value::Rows(r));
                }
            },
            Value::Stream(s) => {
                if pass == 1 {
                    let mut s = s;
                    print_prefixed(printer, &mut s, prefix);
                    out.push(Value::Empty);
                } else {
                    out.push(Value::Stream(s));
                }
            },
            Value::BinaryReader(b) => {
                if pass == 2 {
                    print_binary(printer, b.content.as_str(), prefix);
                    out.push(Value::Empty);
                } else {
                    out.push(Value::BinaryReader(b));
                }
            },
            other => {
                out.push(other);
            },
        }
        assert(lines_model(printer.lines) + nested_pass(model, pass as int, j + 1, prefix@)
            =~= before + nested_pass(model, pass as int, j, prefix@));
    }
    out
}

/// Prints the rows of a batch, and below each row what its cells expand to.
pub fn print_body(printer: &mut Printer, w: &Vec<usize>, data: Vec<Row>, prefix: &str)
    requires
        rows_fit(rows_model(data), widths_model(*w)),
    ensures
        final(printer).errors == old(printer).errors,
        lines_model(final(printer).lines) == lines_model(old(printer).lines) + body_lines(
            rows_model(data),
            widths_model(*w),
            0,
            prefix@,
        ),
    decreases rows_model(data), 0int,
{
    let ghost model = rows_model(data);
    let ghost wm = widths_model(*w);
    let ghost lines0 = lines_model(printer.lines);
    let ghost total = body_lines(model, wm, 0, prefix@);
    let mut inner = String::from_str(prefix);
    push_spaces(&mut inner, 4);
    for row in it: data.into_iter()
        invariant
            it.seq() == data@,
            model == rows_model(data),
            wm == widths_model(*w),
            inner@ == indented(prefix@),
            rows_fit(model, wm),
            printer.errors == old(printer).errors,
            lines0 == lines_model(old(printer).lines),
            total == body_lines(model, wm, 0, prefix@),
            lines_model(printer.lines) + body_lines(model, wm, it.index() as int, prefix@) == lines0
                + total,
    {
        let ghost i = it.index() as int;
        let ghost cells = model[i];
        let ghost before = lines_model(printer.lines);
        assert(row@ == model[i]);
        print_row(printer, w, &row, prefix);
        let c0 = print_nested_pass(printer, row.cells, 0, inner.as_str(), Ghost(cells));
        let c1 = print_nested_pass(printer, c0, 1, inner.as_str(), Ghost(cells));
        print_nested_pass(printer, c1, 2, inner.as_str(), Ghost(cells));
        proof {
            lemma_nested_pass_ignores(cells_model(c0), cells, 1, 0, inner@);
            lemma_nested_pass_ignores(cells_model(c1), cells, 2, 0, inner@);
            assert(lines_model(printer.lines) =~= before + (seq![row_line(cells, wm, prefix@)]
                + nested_lines(cells, inner@)));
        }
    }
}

/// Prints one batch: the header where `has_name` asks for one, then the
/// rows, in columns as wide as this batch needs them.
pub fn print_partial(
    printer: &mut Printer,
    data: Vec<Row>,
    types: &Vec<ColumnType>,
    has_name: bool,
    prefix: &str,
)
    requires
        printable_rows(rows_model(data), types.len() as nat),
    ensures
        final(printer).errors == old(printer).errors,
        lines_model(final(printer).lines) == lines_model(old(printer).lines) + batch_lines(
            schema_model(*types),
            rows_model(data),
            has_name,
            prefix@,
        ),
    decreases rows_model(data), 1int,
{
    let ghost schema = schema_model(*types);
    let ghost model = rows_model(data);
    let mut w = zero_widths(types.len());
    calculate_header_width(&mut w, types, has_name);
    calculate_body_width(&mut w, &data, types.len());
    proof {
        let wm = widths_model(w);
        assert(wm =~= column_widths(schema, model, has_name));
        assert forall|i: int| 0 <= i < data.len() implies (#[trigger] model[i]).len() <= wm.len()
            && cells_fit(model[i], wm) && printable_cells(model[i]) by {
            assert forall|j: int| 0 <= j < model[i].len() implies wm[j] >= cell_width(
                #[trigger] model[i][j],
            ) by {
                lemma_body_width_is_widest(model, j, data.len() as int);
            }
        }
    }
    print_header(printer, &w, types, has_name, prefix);
    print_body(printer, &w, data, prefix);
}

/// Prints the rows of a stream as a table, each line behind `prefix`.
fn print_prefixed(printer: &mut Printer, stream: &mut Stream, prefix: &str)
    requires
        printable_table(old(stream)@),
    ensures
        final(printer).errors == old(printer).errors,
        lines_model(final(printer).lines) == lines_model(old(printer).lines) + render_table(
            old(stream)@,
            prefix@,
        ),
        final(stream)@.rows.len() == 0,
        final(stream)@.types == old(stream)@.types,
    decreases old(stream)@, 0int,
{
    let ghost table = stream@;
    let ghost types = table.types;
    let ghost rows = table.rows;
    let ghost lines0 = lines_model(printer.lines);
    let ghost total = table_lines_from(types, rows, 0, prefix@);
    let (named, tabled) = schema_flags(stream.get_type());
    let mut data: Vec<Row> = Vec::new();
    let mut done = false;
    let ghost mut start: int = 0;
    let ghost mut n: int = 0;
    while !done
        invariant
            table == old(stream)@,
            types == table.types,
            rows == table.rows,
            printable_rows(rows, types.len()),
            stream@.types == types,
            named == has_name(types),
            tabled == has_table(types),
            0 <= start <= n <= rows.len(),
            n - start < batch_size(types),
            done ==> n == rows.len(),
            stream@.rows == rows.subrange(n, rows.len() as int),
            rows_model(data) == rows.subrange(start, n),
            printer.errors == old(printer).errors,
            lines0 == lines_model(old(printer).lines),
            total == table_lines_from(types, rows, 0, prefix@),
            lines_model(printer.lines) + table_lines_from(types, rows, start, prefix@) == lines0
                + total,
        decreases
                rows.len() - n + if done {
                    0int
                } else {
                    1int
                },
    {
        match stream.read() {
            ReadOutcome::Row(r) => {
                let ghost held = rows_model(data);
                data.push(r);
                proof {
                    assert(rows_model(data) =~= held.push(rows[n]));
                    assert(rows_model(data) =~= rows.subrange(start, n + 1));
                    n = n + 1;
                }
                if batch_is_full(data.len(), tabled) {
                    let ghost before = lines_model(printer.lines);
                    let ghost batch = rows.subrange(start, n);
                    proof {
                        if start == 0 && n == rows.len() {
                            assert(batch =~= rows);
                        }
                        assert(printable_rows(batch, types.len())) by {
                            assert forall|i: int| 0 <= i < batch.len() implies (
                            #[trigger] batch[i]).len() == types.len() && printable_cells(
                                batch[i],
                            ) by {}
                        }
                    }
                    print_partial(printer, data, stream.get_type(), named, prefix);
                    data = Vec::new();
                    proof {
                        start = n;
                    }
                }
            },
            _ => {
                done = true;
            },
        }
    }
    let ghost before = lines_model(printer.lines);
    if data.len() > 0 {
        let ghost batch = rows.subrange(start, n);
        proof {
            if start == 0 && n == rows.len() {
                assert(batch =~= rows);
            }
            assert(printable_rows(batch, types.len())) by {
                assert forall|i: int| 0 <= i < batch.len() implies (#[trigger] batch[i]).len()
                    == types.len() && printable_cells(batch[i]) by {}
            }
        }
        print_partial(printer, data, stream.get_type(), named, prefix);
        proof {
            assert(table_lines_from(types, rows, start, prefix@) =~= batch_lines(
                types,
                batch,
                named,
                prefix@,
            ) + table_lines_from(types, rows, n, prefix@));
        }
    }
}

/// Prints the rows of a stream as a table, `indent` steps in.
pub fn print_internal(printer: &mut Printer, stream: &mut Stream, indent: usize)
    requires
        printable_table(old(stream)@),
    ensures
        final(printer).errors == old(printer).errors,
        lines_model(final(printer).lines) == lines_model(old(printer).lines) + render_table(
            old(stream)@,
            repeated(' ', 4 * (indent as nat)),
        ),
        final(stream)@.rows.len() == 0,
{
    let mut prefix = String::new();
    let mut i: usize = 0;
    while i < indent
        invariant
            i <= indent,
            prefix@ == repeated(' ', 4 * (i as nat)),
        decreases indent - i,
    {
        push_spaces(&mut prefix, 4);
        i = i + 1;
    }
    print_prefixed(printer, stream, prefix.as_str());
}

/// Prints the rows of a stream as a table.
pub fn print(printer: &mut Printer, stream: &mut Stream)
    requires
        printable_table(old(stream)@),
    ensures
        final(printer).errors == old(printer).errors,
        lines_model(final(printer).lines) == lines_model(old(printer).lines) + render_table(
            old(stream)@,
            Seq::empty(),
        ),
        final(stream)@.rows.len() == 0,
{
    print_internal(printer, stream, 0);
    assert(repeated(' ', 0) =~= Seq::<char>::empty());
}

/// Prints a value: a table as a table, binary content as its lines, and any
/// other value as its text.
pub fn print_value(printer: &mut Printer, cell: Value)
    requires
        printable(cell@),
    ensures
        final(printer).errors == old(printer).errors,
        lines_model(final(printer).lines) == lines_model(old(printer).lines) + value_lines(cell@),
{
    match cell {
        Value::Stream(output) => {
            let mut output = output;
            print(printer, &mut output);
        },
        Value::Rows(rows) => {
            let mut reader = Stream::new(rows.types, rows.rows);
            print(printer, &mut reader);
        },
        Value::BinaryReader(b) => {
            proof {
                reveal_strlit("");
            }
            assert(""@ =~= Seq::<char>::empty());
            print_binary(printer, b.content.as_str(), "");
        },
        other => {
            let text = other.to_string();
            printer.line(text.as_str());
        },
    }
}

} // verus!
