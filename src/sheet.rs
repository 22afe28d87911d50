//! Reading the values of one column of a sheet.
//!
//! A sheet is seen through the text of its cells: row by row, each cell as
//! calamine renders it for display. Both ways of reading a column use that
//! same rendering, so a number, a date or an empty cell gives the same text
//! whichever way it is read.

use vstd::prelude::*;
use crate::error::RenameError;
use calamine::{Data, Range};

verus! {

#[verifier::external_type_specification]
#[verifier::external_body]
#[verifier::reject_recursive_types(T)]
pub struct ExRange<T>(Range<T>);

#[verifier::external_type_specification]
#[verifier::external_body]
pub struct ExData(Data);

/// The cells of a range, row by row from its first used row, each as the
/// text that its `Display` gives.
pub uninterp spec fn sheet_text(r: Range<Data>) -> Seq<Seq<Seq<char>>>;

/// Which cells of a range, row by row, are `Data::Empty`.
pub uninterp spec fn sheet_empty_cells(r: Range<Data>) -> Seq<Seq<bool>>;

/// Which cells of a range, row by row, hold an error value (`Data::Error`,
/// such as `#N/A` or `#DIV/0!`).
pub uninterp spec fn sheet_error_cells(r: Range<Data>) -> Seq<Seq<bool>>;

/// Relies on calamine's `Range::height`: the number of rows, 0 for an
/// empty range.
#[verifier::external_body]
fn range_height(r: &Range<Data>) -> (h: usize)
    ensures
        h == sheet_text(*r).len(),
        h == sheet_empty_cells(*r).len(),
        h == sheet_error_cells(*r).len(),
{
    r.height()
}

/// Relies on calamine's `Range::width`: every row has that many cells, and
/// a range with a row has at least one column.
#[verifier::external_body]
fn range_width(r: &Range<Data>) -> (w: usize)
    ensures
        forall|i: int| 0 <= i < sheet_text(*r).len() ==> #[trigger] sheet_text(*r)[i].len() == w,
        forall|i: int|
            0 <= i < sheet_empty_cells(*r).len() ==> #[trigger] sheet_empty_cells(*r)[i].len() == w,
        forall|i: int|
            0 <= i < sheet_error_cells(*r).len() ==> #[trigger] sheet_error_cells(*r)[i].len() == w,
        sheet_text(*r).len() > 0 ==> w > 0,
{
    r.width()
}

/// Relies on calamine's `Range::is_empty`: true exactly when the range has
/// no row.
#[verifier::external_body]
fn range_is_empty(r: &Range<Data>) -> (b: bool)
    ensures
        b == (sheet_text(*r).len() == 0),
{
    r.is_empty()
}

/// Relies on calamine's `Range::get` (a cell inside the range is always
/// there) and on `Display` for `Data` (the text of the cell).
#[verifier::external_body]
fn cell_text(r: &Range<Data>, row: usize, col: usize) -> (s: String)
    requires
        row < sheet_text(*r).len(),
        col < sheet_text(*r)[row as int].len(),
    ensures
        s@ == sheet_text(*r)[row as int][col as int],
{
    match r.get((row, col)) {
        Some(d) => d.to_string(),
        None => String::new(),
    }
}

/// Relies on calamine's `Range::get` (a cell inside the range is always
/// there): whether the cell is `Data::Empty`.
#[verifier::external_body]
fn cell_is_empty(r: &Range<Data>, row: usize, col: usize) -> (b: bool)
    requires
        row < sheet_empty_cells(*r).len(),
        col < sheet_empty_cells(*r)[row as int].len(),
    ensures
        b == sheet_empty_cells(*r)[row as int][col as int],
{
    match r.get((row, col)) {
        Some(Data::Empty) => true,
        _ => false,
    }
}

/// Relies on calamine's `Range::get` (a cell inside the range is always
/// there): whether the cell is `Data::Error`.
#[verifier::external_body]
fn cell_is_error(r: &Range<Data>, row: usize, col: usize) -> (b: bool)
    requires
        row < sheet_error_cells(*r).len(),
        col < sheet_error_cells(*r)[row as int].len(),
    ensures
        b == sheet_error_cells(*r)[row as int][col as int],
{
    match r.get((row, col)) {
        Some(Data::Error(_)) => true,
        _ => false,
    }
}

/// The value of a data row under the header `column`, looking at the first
/// `k` columns: the text of the cell of the rightmost column of that name
/// whose cell is not empty, or the empty text if there is none.
pub open spec fn lookup(
    header: Seq<Seq<char>>,
    row: Seq<Seq<char>>,
    empty: Seq<bool>,
    column: Seq<char>,
    k: int,
) -> Seq<char>
    decreases k,
{
    if k <= 0 {
        Seq::empty()
    } else if header[k - 1] == column && !empty[k - 1] {
        row[k - 1]
    } else {
        lookup(header, row, empty, column, k - 1)
    }
}

/// Column mode: the first row names the columns; each later row gives its
/// value under `column`.
pub open spec fn column_values(
    t: Seq<Seq<Seq<char>>>,
    e: Seq<Seq<bool>>,
    column: Seq<char>,
) -> Seq<Seq<char>> {
    Seq::new(
        (t.len() - 1) as nat,
        |i: int| lookup(t[0], t[i + 1], e[i + 1], column, t[0].len() as int),
    )
}

/// Positional mode: the first cell of every row, the first row included.
pub open spec fn first_column(t: Seq<Seq<Seq<char>>>) -> Seq<Seq<char>> {
    Seq::new(t.len(), |i: int| t[i][0])
}

/// Whether some cell is marked in `x`.
pub open spec fn has_marked(x: Seq<Seq<bool>>) -> bool {
    exists|i: int, j: int| 0 <= i < x.len() && 0 <= j < x[i].len() && #[trigger] x[i][j]
}

/// Whether `(i, j)` is the first marked cell of `x`, reading row by row,
/// each row from left to right.
pub open spec fn first_marked(x: Seq<Seq<bool>>, i: int, j: int) -> bool {
    &&& 0 <= i < x.len()
    &&& 0 <= j < x[i].len()
    &&& x[i][j]
    &&& forall|a: int, b: int| 0 <= a < i && 0 <= b < x[a].len() ==> !#[trigger] x[a][b]
    &&& forall|b: int| 0 <= b < j ==> !#[trigger] x[i][b]
}

/// Whether the strings `v` hold exactly the texts `s`, in order.
pub open spec fn texts_are(v: Seq<String>, s: Seq<Seq<char>>) -> bool {
    &&& v.len() == s.len()
    &&& forall|i: int| 0 <= i < v.len() ==> #[trigger] v[i]@ == s[i]
}

/// Whether every empty cell of the first column shows no text.
pub open spec fn first_column_blank_when_empty(t: Seq<Seq<Seq<char>>>, e: Seq<Seq<bool>>) -> bool {
    forall|i: int| 0 <= i < t.len() && #[trigger] e[i][0] ==> t[i][0].len() == 0
}

/// Where only the first column bears the header `column`, looking a row up
/// finds its first cell.
proof fn lemma_lookup_first(
    header: Seq<Seq<char>>,
    row: Seq<Seq<char>>,
    empty: Seq<bool>,
    column: Seq<char>,
    k: int,
)
    requires
        1 <= k <= header.len(),
        header[0] == column,
        forall|j: int| 1 <= j < header.len() ==> #[trigger] header[j] != column,
        empty[0] ==> row[0].len() == 0,
    ensures
        lookup(header, row, empty, column, k) == row[0],
    decreases k,
{
    if k > 1 {
        lemma_lookup_first(header, row, empty, column, k - 1);
    } else {
        assert(lookup(header, row, empty, column, 0) == Seq::<char>::empty());
        if empty[0] {
            assert(row[0] == Seq::<char>::empty());
        }
    }
}

/// Both modes agree where the header of the first column names the column
/// (and no other column bears that name): the column read by name is the
/// first column without its header cell. An empty cell shows no text, so
/// it reads the same both ways.
pub proof fn lemma_modes_agree(t: Seq<Seq<Seq<char>>>, e: Seq<Seq<bool>>, column: Seq<char>)
    requires
        t.len() > 0,
        t[0].len() > 0,
        first_column_blank_when_empty(t, e),
        t[0][0] == column,
        forall|j: int| 1 <= j < t[0].len() ==> #[trigger] t[0][j] != column,
    ensures
        column_values(t, e, column) == first_column(t).skip(1),
{
    assert forall|i: int| 0 <= i < t.len() - 1 implies #[trigger] column_values(t, e, column)[i]
        == first_column(t).skip(1)[i] by {
        if e[i + 1][0] {
            assert(t[i + 1][0].len() == 0);
        }
        lemma_lookup_first(t[0], t[i + 1], e[i + 1], column, t[0].len() as int);
    }
    assert(column_values(t, e, column) == first_column(t).skip(1));
}

/// The index of the sheet named `sheet` among `sheet_names`, the first one
/// if several have that name; `SheetNotFound` if none has it.
pub fn find_sheet(sheet_names: &Vec<String>, sheet: &String) -> (r: Result<usize, RenameError>)
    ensures
        match r {
            Ok(i) => {
                &&& i < sheet_names.len()
                &&& sheet_names[i as int]@ == sheet@
                &&& forall|j: int| 0 <= j < i ==> #[trigger] sheet_names[j]@ != sheet@
            },
            Err(e) => {
                &&& e matches RenameError::SheetNotFound(s) && s@ == sheet@
                &&& forall|j: int| 0 <= j < sheet_names.len() ==> #[trigger] sheet_names[j]@ != sheet@
            },
        },
{
    let mut i: usize = 0;
    while i < sheet_names.len()
        invariant
            i <= sheet_names.len(),
            forall|j: int| 0 <= j < i ==> #[trigger] sheet_names[j]@ != sheet@,
        decreases sheet_names.len() - i,
    {
        if sheet_names[i] == *sheet {
            return Ok(i);
        }
        i = i + 1;
    }
    Err(RenameError::SheetNotFound(sheet.clone()))
}

/// The texts of the first cell of each row, top to bottom.
fn first_column_of(range: &Range<Data>) -> (r: Vec<String>)
    requires
        sheet_text(*range).len() > 0,
    ensures
        texts_are(r@, first_column(sheet_text(*range))),
{
    let h = range_height(range);
    let w = range_width(range);
    let mut out: Vec<String> = Vec::new();
    let mut i: usize = 0;
    while i < h
        invariant
            h == sheet_text(*range).len(),
            w > 0,
            forall|k: int| 0 <= k < h ==> #[trigger] sheet_text(*range)[k].len() == w,
            i <= h,
            texts_are(out@, first_column(sheet_text(*range)).take(i as int)),
        decreases h - i,
    {
        let s = cell_text(range, i, 0);
        out.push(s);
        i = i + 1;
    }
    assert(first_column(sheet_text(*range)).take(h as int) == first_column(sheet_text(*range)));
    out
}

/// The value of row `row` under the header `column`.
fn lookup_in_row(range: &Range<Data>, header: &Vec<String>, row: usize, column: &String) -> (r:
    String)
    requires
        0 < row < sheet_text(*range).len(),
        sheet_empty_cells(*range).len() == sheet_text(*range).len(),
        texts_are(header@, sheet_text(*range)[0]),
        forall|k: int|
            0 <= k < sheet_text(*range).len() ==> #[trigger] sheet_text(*range)[k].len()
                == header.len(),
        forall|k: int|
            0 <= k < sheet_empty_cells(*range).len() ==> #[trigger] sheet_empty_cells(
                *range,
            )[k].len() == header.len(),
    ensures
        r@ == lookup(
            sheet_text(*range)[0],
            sheet_text(*range)[row as int],
            sheet_empty_cells(*range)[row as int],
            column@,
            header.len() as int,
        ),
{
    let ghost t = sheet_text(*range);
    let ghost e = sheet_empty_cells(*range);
    let mut found = String::new();
    let mut j: usize = 0;
    while j < header.len()
        invariant
            t == sheet_text(*range),
            e == sheet_empty_cells(*range),
            0 < row < t.len(),
            e.len() == t.len(),
            texts_are(header@, t[0]),
            forall|k: int| 0 <= k < t.len() ==> #[trigger] t[k].len() == header.len(),
            forall|k: int| 0 <= k < e.len() ==> #[trigger] e[k].len() == header.len(),
            j <= header.len(),
            found@ == lookup(t[0], t[row as int], e[row as int], column@, j as int),
        decreases header.len() - j,
    {
        if header[j] == *column {
            if !cell_is_empty(range, row, j) {
                found = cell_text(range, row, j);
            }
        }
        j = j + 1;
    }
    found
}

/// Column mode: the value under `column` of every row after the header row.
fn column_of(range: &Range<Data>, column: &String) -> (r: Vec<String>)
    requires
        sheet_text(*range).len() > 0,
    ensures
        texts_are(r@, column_values(sheet_text(*range), sheet_empty_cells(*range), column@)),
{
    let ghost t = sheet_text(*range);
    let ghost e = sheet_empty_cells(*range);
    let h = range_height(range);
    let w = range_width(range);
    let mut header: Vec<String> = Vec::new();
    let mut j: usize = 0;
    while j < w
        invariant
            t == sheet_text(*range),
            h == t.len() > 0,
            forall|k: int| 0 <= k < h ==> #[trigger] t[k].len() == w,
            j <= w,
            texts_are(header@, t[0].take(j as int)),
        decreases w - j,
    {
        let s = cell_text(range, 0, j);
        header.push(s);
        j = j + 1;
    }
    assert(t[0].take(w as int) == t[0]);
    let mut out: Vec<String> = Vec::new();
    let mut i: usize = 1;
    while i < h
        invariant
            t == sheet_text(*range),
            e == sheet_empty_cells(*range),
            h == t.len() > 0,
            h == e.len(),
            forall|k: int| 0 <= k < h ==> #[trigger] t[k].len() == w,
            forall|k: int| 0 <= k < h ==> #[trigger] e[k].len() == w,
            header.len() == w,
            texts_are(header@, t[0]),
            1 <= i <= h,
            texts_are(out@, column_values(t, e, column@).take(i - 1)),
        decreases h - i,
    {
        let v = lookup_in_row(range, &header, i, column);
        out.push(v);
        i = i + 1;
    }
    assert(column_values(t, e, column@).take(h - 1) == column_values(t, e, column@));
    out
}

/// The first cell that holds an error value, reading row by row, each row
/// from left to right.
fn first_error_cell(range: &Range<Data>) -> (r: Option<(usize, usize)>)
    ensures
        match r {
            None => !has_marked(sheet_error_cells(*range)),
            Some((i, j)) => first_marked(sheet_error_cells(*range), i as int, j as int),
        },
{
    let ghost x = sheet_error_cells(*range);
    let h = range_height(range);
    let w = range_width(range);
    let mut i: usize = 0;
    while i < h
        invariant
            x == sheet_error_cells(*range),
            h == x.len(),
            h == sheet_text(*range).len(),
            forall|k: int| 0 <= k < h ==> #[trigger] x[k].len() == w,
            i <= h,
            forall|a: int, b: int| 0 <= a < i && 0 <= b < x[a].len() ==> !#[trigger] x[a][b],
        decreases h - i,
    {
        let mut j: usize = 0;
        while j < w
            invariant
                x == sheet_error_cells(*range),
                h == x.len(),
                forall|k: int| 0 <= k < h ==> #[trigger] x[k].len() == w,
                i < h,
                j <= w,
                forall|a: int, b: int| 0 <= a < i && 0 <= b < x[a].len() ==> !#[trigger] x[a][b],
                forall|b: int| 0 <= b < j ==> !#[trigger] x[i as int][b],
            decreases w - j,
        {
            if cell_is_error(range, i, j) {
                return Some((i, j));
            }
            j = j + 1;
        }
        i = i + 1;
    }
    None
}

/// Reads the values of a sheet. Without a column name: the first cell of
/// every row, the first row included. With one: the value under that header
/// of each row after the first (empty text where the row has none), unless
/// a cell of the sheet holds an error value, which makes the first such cell
/// an error. A sheet with no row is an error.
pub fn values_from_range(range: &Range<Data>, column: Option<String>) -> (r: Result<
    Vec<String>,
    RenameError,
>)
    ensures
        sheet_text(*range).len() == 0 ==> r matches Err(RenameError::EmptyWorkbook),
        sheet_text(*range).len() > 0 && column is None ==> (r matches Ok(v) && texts_are(
            v@,
            first_column(sheet_text(*range)),
        )),
        sheet_text(*range).len() > 0 && column is Some ==> match r {
            Ok(v) => {
                &&& !has_marked(sheet_error_cells(*range))
                &&& texts_are(
                    v@,
                    column_values(sheet_text(*range), sheet_empty_cells(*range), column->0@),
                )
            },
            Err(e) => e matches RenameError::ErrorCell { row, col } && first_marked(
                sheet_error_cells(*range),
                row as int,
                col as int,
            ),
        },
{
    if range_is_empty(range) {
        return Err(RenameError::EmptyWorkbook);
    }
    match column {
        Some(c) => match first_error_cell(range) {
            Some((row, col)) => Err(RenameError::ErrorCell { row, col }),
            None => Ok(column_of(range, &c)),
        },
        None => Ok(first_column_of(range)),
    }
}

} // verus!
