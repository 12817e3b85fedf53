//! Pipe tables: column widths and the rendered rows.
use vstd::prelude::*;
use crate::text::{push_chars, push_lit, push_repeat, repeat};

verus! {

pub open spec fn cells_view(v: Seq<Vec<char>>) -> Seq<Seq<char>> {
    v.map_values(|x: Vec<char>| x@)
}

pub open spec fn rows_view(v: Seq<Vec<Vec<char>>>) -> Seq<Seq<Seq<char>>> {
    v.map_values(|r: Vec<Vec<char>>| cells_view(r@))
}

/// The longest cell in column `j` over all rows (0 where no row reaches it).
pub open spec fn col_width(rows: Seq<Seq<Seq<char>>>, j: int) -> nat
    decreases rows.len(),
{
    if rows.len() == 0 {
        0
    } else {
        let w = col_width(rows.drop_last(), j);
        let r = rows.last();
        let x = if 0 <= j < r.len() {
            r[j].len()
        } else {
            0
        };
        if x > w {
            x
        } else {
            w
        }
    }
}

/// One width per cell of the first row.
pub open spec fn col_widths(rows: Seq<Seq<Seq<char>>>) -> Seq<nat> {
    Seq::new(rows[0].len(), |j: int| col_width(rows, j))
}

pub open spec fn pad(w: nat, len: nat) -> nat {
    if w > len {
        (w - len) as nat
    } else {
        0
    }
}

/// The first `m` cells of a row, each padded with spaces to its column width.
pub open spec fn cells_text(row: Seq<Seq<char>>, ws: Seq<nat>, m: int) -> Seq<char>
    decreases m,
{
    if m <= 0 {
        Seq::empty()
    } else {
        cells_text(row, ws, m - 1) + " "@ + row[m - 1] + repeat(' ', pad(ws[m - 1], row[m - 1].len()))
            + " |"@
    }
}

pub open spec fn min(a: int, b: int) -> int {
    if a < b {
        a
    } else {
        b
    }
}

/// A row as one line; cells past the last column are left out.
pub open spec fn row_line(row: Seq<Seq<char>>, ws: Seq<nat>) -> Seq<char> {
    "|"@ + cells_text(row, ws, min(row.len() as int, ws.len() as int)) + "\n"@
}

pub open spec fn dash_cells(ws: Seq<nat>, m: int) -> Seq<char>
    decreases m,
{
    if m <= 0 {
        Seq::empty()
    } else {
        dash_cells(ws, m - 1) + " "@ + repeat('-', ws[m - 1]) + " |"@
    }
}

/// The line under the header row: dashes as wide as each column.
pub open spec fn separator_line(ws: Seq<nat>) -> Seq<char> {
    "|"@ + dash_cells(ws, ws.len() as int) + "\n"@
}

/// Rows 1 to `m - 1`, one line each.
pub open spec fn body_lines(rows: Seq<Seq<Seq<char>>>, ws: Seq<nat>, m: int) -> Seq<char>
    decreases m,
{
    if m <= 1 {
        Seq::empty()
    } else {
        body_lines(rows, ws, m - 1) + row_line(rows[m - 1], ws)
    }
}

/// The whole table: the first row as header, the separator, then the others.
pub open spec fn table_text(rows: Seq<Seq<Seq<char>>>) -> Seq<char> {
    if rows.len() == 0 {
        Seq::empty()
    } else {
        let ws = col_widths(rows);
        row_line(rows[0], ws) + separator_line(ws) + body_lines(rows, ws, rows.len() as int)
    }
}

/// The width of each column, for as many columns as the first row has.
pub fn column_widths(rows: &Vec<Vec<Vec<char>>>) -> (ws: Vec<usize>)
    requires
        rows@.len() > 0,
    ensures
        ws@.map_values(|w: usize| w as nat) == col_widths(rows_view(rows@)),
{
    let ghost rv = rows_view(rows@);
    let ncols = rows[0].len();
    let mut ws: Vec<usize> = Vec::new();
    let mut j: usize = 0;
    while j < ncols
        invariant
            j <= ncols,
            ws@.len() == j,
            forall|k: int| 0 <= k < j ==> ws@[k] == 0,
        decreases ncols - j,
    {
        ws.push(0);
        j = j + 1;
    }
    let nrows = rows.len();
    let mut r: usize = 0;
    while r < nrows
        invariant
            r <= nrows,
            nrows == rows@.len(),
            rv == rows_view(rows@),
            ws@.len() == ncols,
            forall|k: int| 0 <= k < ncols ==> ws@[k] == col_width(rv.take(r as int), k),
        decreases nrows - r,
    {
        let row = &rows[r];
        let ghost next = rv.take(r + 1);
        assert(next.drop_last() =~= rv.take(r as int));
        assert(next.last() == cells_view(row@));
        let mut c: usize = 0;
        while c < ncols
            invariant
                c <= ncols,
                ws@.len() == ncols,
                next.drop_last() == rv.take(r as int),
                next.last() == cells_view(row@),
                next.len() > 0,
                forall|k: int| 0 <= k < c ==> ws@[k] == col_width(next, k),
                forall|k: int| c <= k < ncols ==> ws@[k] == col_width(rv.take(r as int), k),
            decreases ncols - c,
        {
            let x: usize = if c < row.len() {
                row[c].len()
            } else {
                0
            };
            if x > ws[c] {
                ws.set(c, x);
            }
            c = c + 1;
        }
        r = r + 1;
    }
    assert(rv.take(nrows as int) =~= rv);
    assert(ws@.map_values(|w: usize| w as nat) =~= col_widths(rv));
    ws
}

fn push_row(out: &mut Vec<char>, row: &Vec<Vec<char>>, ws: &Vec<usize>, Ghost(wv): Ghost<Seq<nat>>)
    requires
        wv == ws@.map_values(|w: usize| w as nat),
    ensures
        final(out)@ == old(out)@ + row_line(cells_view(row@), wv),
{
    let ghost rv = cells_view(row@);
    let m = if row.len() < ws.len() {
        row.len()
    } else {
        ws.len()
    };
    push_lit(out, "|");
    let ghost start = out@;
    let mut k: usize = 0;
    while k < m
        invariant
            k <= m,
            m <= row@.len(),
            m <= ws@.len(),
            rv == cells_view(row@),
            wv == ws@.map_values(|w: usize| w as nat),
            out@ == start + cells_text(rv, wv, k as int),
        decreases m - k,
    {
        let cell = &row[k];
        let w = ws[k];
        let n = cell.len();
        push_lit(out, " ");
        push_chars(out, cell);
        let p: usize = if w > n {
            w - n
        } else {
            0
        };
        push_repeat(out, ' ', p);
        push_lit(out, " |");
        assert(out@ =~= start + cells_text(rv, wv, k + 1));
        k = k + 1;
    }
    push_lit(out, "\n");
    assert(out@ =~= old(out)@ + row_line(rv, wv));
}

fn push_separator(out: &mut Vec<char>, ws: &Vec<usize>, Ghost(wv): Ghost<Seq<nat>>)
    requires
        wv == ws@.map_values(|w: usize| w as nat),
    ensures
        final(out)@ == old(out)@ + separator_line(wv),
{
    push_lit(out, "|");
    let ghost start = out@;
    let mut k: usize = 0;
    while k < ws.len()
        invariant
            k <= ws@.len(),
            wv == ws@.map_values(|w: usize| w as nat),
            out@ == start + dash_cells(wv, k as int),
        decreases ws@.len() - k,
    {
        push_lit(out, " ");
        push_repeat(out, '-', ws[k]);
        push_lit(out, " |");
        assert(out@ =~= start + dash_cells(wv, k + 1));
        k = k + 1;
    }
    push_lit(out, "\n");
    assert(out@ =~= old(out)@ + separator_line(wv));
}

/// Appends the table of `rows` to `out`; nothing where there is no row.
pub fn push_table(out: &mut Vec<char>, rows: &Vec<Vec<Vec<char>>>)
    ensures
        final(out)@ == old(out)@ + table_text(rows_view(rows@)),
{
    let ghost rv = rows_view(rows@);
    if rows.len() == 0 {
        assert(out@ =~= old(out)@ + table_text(rv));
        return;
    }
    let ws = column_widths(rows);
    let ghost wv = ws@.map_values(|w: usize| w as nat);
    push_row(out, &rows[0], &ws, Ghost(wv));
    push_separator(out, &ws, Ghost(wv));
    let ghost start = out@;
    let mut r: usize = 1;
    while r < rows.len()
        invariant
            1 <= r <= rows@.len(),
            rv == rows_view(rows@),
            wv == ws@.map_values(|w: usize| w as nat),
            wv == col_widths(rv),
            out@ == start + body_lines(rv, wv, r as int),
        decreases rows@.len() - r,
    {
        push_row(out, &rows[r], &ws, Ghost(wv));
        assert(out@ =~= start + body_lines(rv, wv, r + 1));
        r = r + 1;
    }
    assert(out@ =~= old(out)@ + table_text(rv));
}

} // verus!
