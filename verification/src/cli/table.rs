//! Fixed-width text tables for console and markdown reports.

use vstd::prelude::*;
use vstd::utf8::encode_utf8;

use crate::strategies::blue_green::texts;
use crate::text::{chars_of, join, join_from, string_from_chars};

verus! {

/// The width std reports for a text (`str::len`): its UTF-8 length in bytes.
pub open spec fn text_width(s: Seq<char>) -> nat {
    (encode_utf8(s).len() as usize) as nat
}

/// `n` copies of a character.
pub open spec fn repeat(c: char, n: nat) -> Seq<char> {
    Seq::new(n, |i: int| c)
}

/// A cell left-aligned and padded with spaces to `width` characters (`{:<width$}`).
pub open spec fn pad(cell: Seq<char>, width: nat) -> Seq<char> {
    if cell.len() < width {
        cell + repeat(' ', (width - cell.len()) as nat)
    } else {
        cell
    }
}

/// Widths after one more row: a cell within the header's columns widens its column to fit.
pub open spec fn widen(widths: Seq<nat>, row: Seq<Seq<char>>) -> Seq<nat> {
    Seq::new(
        widths.len(),
        |i: int|
            if i < row.len() && widths[i] < text_width(row[i]) {
                text_width(row[i])
            } else {
                widths[i]
            },
    )
}

/// The column widths: each header's width, widened by every row.
pub open spec fn column_widths(headers: Seq<Seq<char>>, rows: Seq<Seq<Seq<char>>>) -> Seq<nat>
    decreases rows.len(),
{
    if rows.len() == 0 {
        headers.map_values(|h: Seq<char>| text_width(h))
    } else {
        widen(column_widths(headers, rows.drop_last()), rows.last())
    }
}

/// A row's text: each cell padded to its column's width (a cell past the last column to its
/// own width), joined with ` | `.
pub open spec fn row_text(cells: Seq<Seq<char>>, widths: Seq<nat>) -> Seq<char> {
    join(
        Seq::new(
            cells.len(),
            |i: int|
                pad(
                    cells[i],
                    if i < widths.len() {
                        widths[i]
                    } else {
                        text_width(cells[i])
                    },
                ),
        ),
        seq![' ', '|', ' '],
    )
}

/// The separator line: a run of `-` per column, joined with `-+-`.
pub open spec fn separator_text(widths: Seq<nat>) -> Seq<char> {
    join(widths.map_values(|w: nat| repeat('-', w)), seq!['-', '+', '-'])
}

/// The rows after the separator, each on a line of its own.
pub open spec fn body_text(rows: Seq<Seq<Seq<char>>>, widths: Seq<nat>) -> Seq<char>
    decreases rows.len(),
{
    if rows.len() == 0 {
        Seq::empty()
    } else {
        body_text(rows.drop_last(), widths) + seq!['\n'] + row_text(rows.last(), widths)
    }
}

/// A whole table: the header row, the separator, then the rows.
pub open spec fn table_text(headers: Seq<Seq<char>>, rows: Seq<Seq<Seq<char>>>) -> Seq<char> {
    let widths = column_widths(headers, rows);
    row_text(headers, widths) + seq!['\n'] + separator_text(widths) + body_text(rows, widths)
}

/// The header texts.
pub open spec fn header_texts(headers: Seq<&str>) -> Seq<Seq<char>> {
    headers.map_values(|h: &str| h@)
}

/// The cell texts of every row.
pub open spec fn row_texts(rows: Seq<Vec<String>>) -> Seq<Seq<Seq<char>>> {
    rows.map_values(|r: Vec<String>| texts(r@))
}

/// The pieces joined with a separator.
fn join_all(pieces: &Vec<Vec<char>>, sep: &[char]) -> (r: Vec<char>)
    ensures
        r@ == join(pieces@.map_values(|p: Vec<char>| p@), sep@),
{
    let r = join_from(pieces, 0, sep);
    assert(pieces@.skip(0) =~= pieces@);
    r
}

/// A cell padded with spaces to `width` characters.
fn pad_cell(cell: &str, width: usize) -> (r: Vec<char>)
    ensures
        r@ == pad(cell@, width as nat),
{
    let mut r = chars_of(cell);
    let n = r.len();
    if n < width {
        let ghost start = r@;
        let mut k: usize = n;
        while k < width
            invariant
                n <= k <= width,
                r@ == start + repeat(' ', (k - n) as nat),
            decreases width - k,
        {
            r.push(' ');
            assert(r@ =~= start + repeat(' ', (k + 1 - n) as nat));
            k = k + 1;
        }
    }
    r
}

/// The text of one row.
fn format_row(cells: &[String], widths: &Vec<usize>) -> (r: String)
    ensures
        r@ == row_text(texts(cells@), widths@.map_values(|w: usize| w as nat)),
{
    let ghost ws = widths@.map_values(|w: usize| w as nat);
    let ghost cs = texts(cells@);
    let mut parts: Vec<Vec<char>> = Vec::new();
    let mut i: usize = 0;
    while i < cells.len()
        invariant
            i <= cells@.len(),
            ws == widths@.map_values(|w: usize| w as nat),
            cs == texts(cells@),
            parts@.len() == i,
            forall|j: int|
                0 <= j < i ==> #[trigger] parts@[j]@ == pad(
                    cs[j],
                    if j < ws.len() {
                        ws[j]
                    } else {
                        text_width(cs[j])
                    },
                ),
        decreases cells@.len() - i,
    {
        let width = if i < widths.len() {
            widths[i]
        } else {
            cells[i].as_str().len()
        };
        let padded = pad_cell(cells[i].as_str(), width);
        parts.push(padded);
        i = i + 1;
    }
    let sep: Vec<char> = vec![' ', '|', ' '];
    let joined = join_all(&parts, sep.as_slice());
    proof {
        assert(parts@.map_values(|p: Vec<char>| p@) =~= Seq::new(
            cs.len(),
            |j: int|
                pad(
                    cs[j],
                    if j < ws.len() {
                        ws[j]
                    } else {
                        text_width(cs[j])
                    },
                ),
        ));
        assert(sep@ =~= seq![' ', '|', ' ']);
    }
    string_from_chars(joined.as_slice())
}

/// The separator line.
fn separator(widths: &Vec<usize>) -> (r: String)
    ensures
        r@ == separator_text(widths@.map_values(|w: usize| w as nat)),
{
    let ghost ws = widths@.map_values(|w: usize| w as nat);
    let mut parts: Vec<Vec<char>> = Vec::new();
    let mut i: usize = 0;
    while i < widths.len()
        invariant
            i <= widths@.len(),
            ws == widths@.map_values(|w: usize| w as nat),
            parts@.len() == i,
            forall|j: int| 0 <= j < i ==> #[trigger] parts@[j]@ == repeat('-', ws[j]),
        decreases widths@.len() - i,
    {
        let mut run: Vec<char> = Vec::new();
        let mut k: usize = 0;
        while k < widths[i]
            invariant
                k <= widths@[i as int],
                i < widths@.len(),
                run@ == repeat('-', k as nat),
            decreases widths@[i as int] - k,
        {
            run.push('-');
            assert(run@ =~= repeat('-', (k + 1) as nat));
            k = k + 1;
        }
        parts.push(run);
        i = i + 1;
    }
    let sep: Vec<char> = vec!['-', '+', '-'];
    let joined = join_all(&parts, sep.as_slice());
    proof {
        assert(parts@.map_values(|p: Vec<char>| p@) =~= ws.map_values(|w: nat| repeat('-', w)));
        assert(sep@ =~= seq!['-', '+', '-']);
    }
    string_from_chars(joined.as_slice())
}

/// Render an aligned table: the header row, a separator, then one line per row.
pub fn render_table(headers: &[&str], rows: &[Vec<String>]) -> (r: String)
    ensures
        r@ == table_text(header_texts(headers@), row_texts(rows@)),
{
    let ghost hs = header_texts(headers@);
    let ghost rs = row_texts(rows@);
    let column_count = headers.len();
    let mut widths: Vec<usize> = Vec::new();
    let mut header_cells: Vec<String> = Vec::new();
    let mut h: usize = 0;
    while h < column_count
        invariant
            h <= column_count,
            column_count == headers@.len(),
            hs == header_texts(headers@),
            widths@.len() == h,
            header_cells@.len() == h,
            forall|j: int| 0 <= j < h ==> (#[trigger] widths@[j]) as nat == text_width(hs[j]),
            forall|j: int| 0 <= j < h ==> (#[trigger] header_cells@[j])@ == hs[j],
        decreases column_count - h,
    {
        widths.push(headers[h].len());
        header_cells.push(String::from_str(headers[h]));
        h = h + 1;
    }
    assert(widths@.map_values(|w: usize| w as nat) =~= column_widths(hs, rs.take(0)));
    assert(texts(header_cells@) =~= hs);
    let mut r: usize = 0;
    while r < rows.len()
        invariant
            r <= rows@.len(),
            column_count == headers@.len(),
            hs == header_texts(headers@),
            rs == row_texts(rows@),
            widths@.len() == column_count,
            widths@.map_values(|w: usize| w as nat) == column_widths(hs, rs.take(r as int)),
        decreases rows@.len() - r,
    {
        let row = &rows[r];
        let ghost before = widths@.map_values(|w: usize| w as nat);
        let ghost cells = texts(row@);
        assert(rs[r as int] == cells);
        let mut c: usize = 0;
        while c < row.len() && c < column_count
            invariant
                c <= column_count,
                widths@.len() == column_count,
                before.len() == column_count,
                cells == texts(row@),
                forall|j: int|
                    0 <= j < column_count ==> (#[trigger] widths@[j]) as nat == if j < c {
                        widen(before, cells)[j]
                    } else {
                        before[j]
                    },
            decreases column_count - c,
        {
            let w = row[c].as_str().len();
            if widths[c] < w {
                widths.set(c, w);
            }
            c = c + 1;
        }
        proof {
            assert(rs.take(r + 1).drop_last() =~= rs.take(r as int));
            assert(rs.take(r + 1).last() == cells);
            assert(widths@.map_values(|w: usize| w as nat) =~= widen(before, cells));
        }
        r = r + 1;
    }
    assert(rs.take(r as int) =~= rs);
    let ghost ws = widths@.map_values(|w: usize| w as nat);
    let mut out: Vec<char> = Vec::new();
    let head = format_row(header_cells.as_slice(), &widths);
    let sep = separator(&widths);
    let head_chars = chars_of(head.as_str());
    let sep_chars = chars_of(sep.as_str());
    out.extend_from_slice(head_chars.as_slice());
    out.push('\n');
    out.extend_from_slice(sep_chars.as_slice());
    assert(out@ =~= row_text(hs, ws) + seq!['\n'] + separator_text(ws) + body_text(rs.take(0), ws));
    let mut i: usize = 0;
    while i < rows.len()
        invariant
            i <= rows@.len(),
            rs == row_texts(rows@),
            ws == widths@.map_values(|w: usize| w as nat),
            out@ == row_text(hs, ws) + seq!['\n'] + separator_text(ws) + body_text(rs.take(i as int), ws),
        decreases rows@.len() - i,
    {
        let line = format_row(rows[i].as_slice(), &widths);
        let line_chars = chars_of(line.as_str());
        out.push('\n');
        out.extend_from_slice(line_chars.as_slice());
        proof {
            assert(rs.take(i + 1).drop_last() =~= rs.take(i as int));
            assert(rs.take(i + 1).last() == texts(rows@[i as int]@));
        }
        assert(out@ =~= row_text(hs, ws) + seq!['\n'] + separator_text(ws) + body_text(rs.take(i + 1), ws));
        i = i + 1;
    }
    assert(rs.take(i as int) =~= rs);
    string_from_chars(out.as_slice())
}

} // verus!
