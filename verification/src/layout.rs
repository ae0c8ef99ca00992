//! The text form of a grid.

use crate::grid_world::{grid_cells, grid_shape, GridWorld};
use vstd::prelude::*;

verus! {

broadcast use vstd::string::group_string_axioms;

/// The characters of `text`, in order.
pub fn chars_of(text: &str) -> (r: Vec<char>)
    ensures
        r@ == text@,
{
    let mut out: Vec<char> = Vec::new();
    for c in it: text.chars()
        invariant
            it.seq() == text@,
            out@ == it.seq().take(it.index() as int),
    {
        out.push(c);
        proof {
            assert(out@ =~= it.seq().take(it.index() + 1));
        }
    }
    proof {
        assert(out@ =~= text@);
    }
    out
}

/// Whether `c` is white space: one of the characters that Unicode marks
/// with the property `White_Space`.
pub open spec fn is_space(c: char) -> bool {
    let u = c as u32;
    ||| 0x09 <= u <= 0x0D
    ||| u == 0x20
    ||| u == 0x85
    ||| u == 0xA0
    ||| u == 0x1680
    ||| 0x2000 <= u <= 0x200A
    ||| u == 0x2028
    ||| u == 0x2029
    ||| u == 0x202F
    ||| u == 0x205F
    ||| u == 0x3000
}

/// The place of the first line feed of `text`, or its length where it has
/// none.
pub open spec fn first_line_feed(text: Seq<char>) -> int
    decreases text.len(),
{
    if text.len() == 0 || text[0] == '\n' {
        0
    } else {
        1 + first_line_feed(text.drop_first())
    }
}

/// `line` without the carriage return at its end, if it has one.
pub open spec fn without_return(line: Seq<char>) -> Seq<char> {
    if line.len() > 0 && line.last() == '\r' {
        line.drop_last()
    } else {
        line
    }
}

/// The lines of `text`. A line ends with a line feed, or with a carriage
/// return and a line feed, neither of which belongs to it; the last line may
/// end with the text instead, and is then taken as it stands.
pub open spec fn lines_of(text: Seq<char>) -> Seq<Seq<char>>
    decreases text.len(),
{
    if text.len() == 0 {
        Seq::empty()
    } else {
        let k = first_line_feed(text);
        if k < 0 || k >= text.len() {
            seq![text]
        } else {
            seq![without_return(text.take(k))] + lines_of(text.skip(k + 1))
        }
    }
}

/// Whether `line` is a row of cells: one character that is not white space
/// for each cell, and exactly one white space character between neighbours.
pub open spec fn is_row(line: Seq<char>) -> bool {
    &&& line.len() % 2 == 1
    &&& forall|i: int| 0 <= i < line.len() ==> (is_space(#[trigger] line[i]) <==> i % 2 == 1)
}

/// The cells of a row.
pub open spec fn cells_of_row(line: Seq<char>) -> Seq<char> {
    Seq::new(((line.len() + 1) / 2) as nat, |k: int| line[2 * k])
}

/// The cells of all `lines`, row after row.
pub open spec fn cells_of_rows(lines: Seq<Seq<char>>) -> Seq<char>
    decreases lines.len(),
{
    if lines.len() == 0 {
        Seq::empty()
    } else {
        cells_of_rows(lines.drop_last()) + cells_of_row(lines.last())
    }
}

/// Whether `text` describes a grid: it has a line, every line is a row, and
/// the rows together hold as many cells as there are lines times cells in
/// the first row.
pub open spec fn is_layout(text: Seq<char>) -> bool {
    let lines = lines_of(text);
    &&& lines.len() > 0
    &&& forall|i: int| 0 <= i < lines.len() ==> is_row(#[trigger] lines[i])
    &&& lines.len() * cells_of_row(lines[0]).len() == cells_of_rows(lines).len()
}

/// A place before which `text` has no line feed, and which holds one or is
/// the end of `text`, is the place of the first line feed.
pub proof fn lemma_first_line_feed(text: Seq<char>, k: int)
    requires
        0 <= k <= text.len(),
        forall|j: int| 0 <= j < k ==> text[j] != '\n',
        k < text.len() ==> text[k] == '\n',
    ensures
        first_line_feed(text) == k,
    decreases text.len(),
{
    if k > 0 {
        lemma_first_line_feed(text.drop_first(), k - 1);
    }
}

/// Decides whether `c` is white space.
pub fn is_whitespace(c: char) -> (r: bool)
    ensures
        r == is_space(c),
{
    let u: u32 = c as u32;
    (0x09 <= u && u <= 0x0D) || u == 0x20 || u == 0x85 || u == 0xA0 || u == 0x1680 || (0x2000 <= u
        && u <= 0x200A) || u == 0x2028 || u == 0x2029 || u == 0x202F || u == 0x205F || u == 0x3000
}

/// Splits `text` into its lines.
pub fn split_lines(text: &Vec<char>) -> (r: Vec<Vec<char>>)
    ensures
        r@.len() == lines_of(text@).len(),
        forall|i: int| 0 <= i < r@.len() ==> (#[trigger] r@[i])@ == lines_of(text@)[i],
{
    let mut out: Vec<Vec<char>> = Vec::new();
    let ghost mut done: Seq<Seq<char>> = Seq::empty();
    let mut from: usize = 0;
    proof {
        assert(text@.skip(0) =~= text@);
    }
    while from < text.len()
        invariant
            from <= text@.len(),
            out@.len() == done.len(),
            forall|i: int| 0 <= i < out@.len() ==> (#[trigger] out@[i])@ == done[i],
            done + lines_of(text@.skip(from as int)) == lines_of(text@),
        decreases text@.len() - from,
    {
        let ghost rest = text@.skip(from as int);
        let mut line: Vec<char> = Vec::new();
        let mut k: usize = from;
        while k < text.len() && text[k] != '\n'
            invariant
                from <= k <= text@.len(),
                line@ == text@.subrange(from as int, k as int),
                forall|j: int| from <= j < k ==> text@[j] != '\n',
            decreases text@.len() - k,
        {
            line.push(text[k]);
            proof {
                assert(line@ =~= text@.subrange(from as int, k as int + 1));
            }
            k += 1;
        }
        proof {
            lemma_first_line_feed(rest, k - from);
            assert(rest.take(k - from) =~= text@.subrange(from as int, k as int));
        }
        if k < text.len() {
            let n = line.len();
            if n > 0 && line[n - 1] == '\r' {
                line.pop();
            }
            proof {
                assert(line@ =~= without_return(rest.take(k - from)));
                assert(rest.skip(k - from + 1) =~= text@.skip(k as int + 1));
                assert(done + (seq![line@] + lines_of(text@.skip(k as int + 1))) =~= done.push(
                    line@,
                ) + lines_of(text@.skip(k as int + 1)));
                done = done.push(line@);
            }
            out.push(line);
            from = k + 1;
        } else {
            proof {
                assert(rest =~= line@);
                assert(text@.skip(k as int) =~= Seq::<char>::empty());
                assert(done + seq![line@] =~= done.push(line@) + lines_of(text@.skip(k as int)));
                done = done.push(line@);
            }
            out.push(line);
            from = k;
        }
    }
    proof {
        assert(done + lines_of(text@.skip(from as int)) =~= done);
    }
    out
}

/// The cells of `line` where it is a row, and `None` where it is not.
pub fn parse_row(line: &Vec<char>) -> (r: Option<Vec<char>>)
    ensures
        r is Some <==> is_row(line@),
        r is Some ==> r->0@ == cells_of_row(line@),
{
    if line.len() % 2 != 1 {
        return None;
    }
    let mut cells: Vec<char> = Vec::new();
    let mut i: usize = 0;
    while i < line.len()
        invariant
            i <= line@.len(),
            line@.len() % 2 == 1,
            forall|j: int| 0 <= j < i ==> (is_space(#[trigger] line@[j]) <==> j % 2 == 1),
            cells@.len() == (i + 1) / 2,
            forall|k: int| 0 <= k < cells@.len() ==> cells@[k] == line@[2 * k],
        decreases line@.len() - i,
    {
        let space = is_whitespace(line[i]);
        if space != (i % 2 == 1) {
            return None;
        }
        if !space {
            cells.push(line[i]);
        }
        i += 1;
    }
    proof {
        assert(cells@ =~= cells_of_row(line@));
    }
    Some(cells)
}

/// The shape that `text` describes: the number of its lines, and the number
/// of cells in the first of them.
pub open spec fn shape_of(text: Seq<char>) -> (nat, nat) {
    (lines_of(text).len(), cells_of_row(lines_of(text)[0]).len())
}

impl GridWorld {
    /// Reads a grid from its text form: one line for each place along the
    /// first axis, and in each line the cells along the second axis, one
    /// character each, with one white space character between neighbours.
    /// Returns `None` where `layout` is not of that form, or where a side of
    /// the grid would be longer than `isize::MAX`.
    pub fn from_str(layout: &str) -> (r: Option<GridWorld>)
        ensures
            r is Some <==> is_layout(layout@) && shape_of(layout@).0 <= isize::MAX && shape_of(
                layout@,
            ).1 <= isize::MAX,
            r is Some ==> grid_shape(r->0) == seq![
                shape_of(layout@).0 as usize,
                shape_of(layout@).1 as usize,
            ],
            r is Some ==> grid_cells(r->0) == cells_of_rows(lines_of(layout@)),
    {
        let text = chars_of(layout);
        let lines = split_lines(&text);
        if lines.len() == 0 {
            return None;
        }
        let ghost all = lines_of(layout@);
        let mut cells: Vec<char> = Vec::new();
        let mut columns: usize = 0;
        let mut i: usize = 0;
        proof {
            assert(all.take(0) =~= Seq::<Seq<char>>::empty());
        }
        while i < lines.len()
            invariant
                i <= lines@.len(),
                all == lines_of(layout@),
                lines@.len() == all.len(),
                forall|j: int| 0 <= j < lines@.len() ==> (#[trigger] lines@[j])@ == all[j],
                forall|j: int| 0 <= j < i ==> is_row(#[trigger] all[j]),
                i > 0 ==> columns == cells_of_row(all[0]).len(),
                cells@ == cells_of_rows(all.take(i as int)),
            decreases lines@.len() - i,
        {
            proof {
                assert(all.take(i as int + 1).drop_last() =~= all.take(i as int));
            }
            match parse_row(&lines[i]) {
                Some(row) => {
                    if i == 0 {
                        columns = row.len();
                    }
                    let mut k: usize = 0;
                    let ghost before = cells@;
                    while k < row.len()
                        invariant
                            k <= row@.len(),
                            cells@ == before + row@.take(k as int),
                        decreases row@.len() - k,
                    {
                        cells.push(row[k]);
                        proof {
                            assert(cells@ =~= before + row@.take(k as int + 1));
                        }
                        k += 1;
                    }
                    proof {
                        assert(row@.take(k as int) =~= row@);
                    }
                },
                None => {
                    return None;
                },
            }
            i += 1;
        }
        proof {
            assert(all.take(i as int) =~= all);
        }
        let rows = lines.len();
        let limit: usize = isize::MAX as usize;
        if rows > limit || columns > limit {
            return None;
        }
        GridWorld::new(rows, columns, cells)
    }
}

} // verus!
