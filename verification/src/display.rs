//! A board drawn as text: a header of column numbers and one lettered row
//! per grid row.

use vstd::prelude::*;
use crate::grid::{Grid, GridView};
use crate::location::Location;
use crate::text::{decimal, push_decimal};

verus! {

/// A view of a board for drawing. With `see_unfound` the vessels' unhit
/// coordinates are shown, as the board's owner sees them; without it only
/// the hits are, as the opponent sees them.
pub struct GridDisplay<'g> {
    grid: &'g Grid,
    see_unfound: bool,
}

/// The number of rows and columns drawn for a board of the given size.
pub open spec fn extent(size: int) -> nat {
    if size > 0 {
        size as nat
    } else {
        0
    }
}

/// The letter in front of row `y`: `A` for the first row, then the
/// characters that follow it.
pub open spec fn label(y: int) -> char {
    ('A' as int + y) as char
}

/// Whether every row of a board of the given size has a label: counting
/// from `A`, no row reaches the surrogate code points, which are not
/// characters.
pub open spec fn labelled(size: int) -> bool {
    'A' as int + size <= 0xD800
}

/// The mark for one coordinate: `x` where it is hit; else `o` where a vessel
/// lies and `reveal` is set; else `.`.
pub open spec fn glyph(board: GridView, reveal: bool, c: Location) -> char {
    if board.is_hit(c) {
        'x'
    } else if reveal && board.occupies(c) {
        'o'
    } else {
        '.'
    }
}

/// The first `n` entries of the header: the column numbers from 1, each
/// followed by a space.
pub open spec fn header_cells(n: int) -> Seq<Seq<char>> {
    Seq::new(extent(n), |x: int| decimal(x + 1) + seq![' '])
}

/// The header line: two spaces, the column numbers, a line break.
pub open spec fn header(size: int) -> Seq<char> {
    seq![' ', ' '] + header_cells(size).flatten() + seq!['\n']
}

/// The first `n` entries of row `y`: the mark of each coordinate, followed
/// by a space.
pub open spec fn row_cells(board: GridView, reveal: bool, y: int, n: int) -> Seq<Seq<char>> {
    Seq::new(extent(n), |x: int| seq![glyph(board, reveal, Location { x: x as i32, y: y as i32 }), ' '])
}

/// Row `y` as a line: its label, a space, its marks, a line break.
pub open spec fn row(board: GridView, reveal: bool, y: int) -> Seq<char> {
    seq![label(y), ' '] + row_cells(board, reveal, y, board.size).flatten() + seq!['\n']
}

/// The first `n` rows of the board, each as a line.
pub open spec fn rows(board: GridView, reveal: bool, n: int) -> Seq<Seq<char>> {
    Seq::new(extent(n), |y: int| row(board, reveal, y))
}

/// The whole drawing: the header, then every row from the first.
pub open spec fn rendered(board: GridView, reveal: bool) -> Seq<char> {
    header(board.size) + rows(board, reveal, board.size).flatten()
}

fn listed(list: &Vec<Location>, c: Location) -> (yes: bool)
    ensures
        yes == list@.contains(c),
{
    let mut i: usize = 0;
    while i < list.len()
        invariant
            i <= list.len(),
            forall|j: int| 0 <= j < i ==> list@[j] != c,
        decreases list.len() - i,
    {
        if list[i] == c {
            return true;
        }
        i += 1;
    }
    false
}

impl<'g> GridDisplay<'g> {
    /// The board that is drawn.
    pub closed spec fn board(&self) -> GridView {
        self.grid@
    }

    /// Whether unhit vessel coordinates are shown.
    pub closed spec fn reveals(&self) -> bool {
        self.see_unfound
    }

    /// Draws the board. Rows are labelled with the characters from `A` on,
    /// so the board must not have more rows than there are such characters.
    pub fn render(&self) -> (out: String)
        requires
            labelled(self.board().size),
        ensures
            out@ == rendered(self.board(), self.reveals()),
    {
        let size = self.grid.size();
        let all = self.grid.get_all();
        let found = self.grid.get_all_found();
        let ghost board = self.grid@;
        let ghost reveal = self.see_unfound;
        let mut out = String::new();
        out.push(' ');
        out.push(' ');
        let mut x: i32 = 0;
        assert(header_cells(0).flatten() =~= Seq::<char>::empty());
        while x < size
            invariant
                0 <= x,
                x <= size || x == 0,
                out@ == seq![' ', ' '] + header_cells(x as int).flatten(),
            decreases size - x,
        {
            let ghost before = out@;
            push_decimal(&mut out, x + 1);
            out.push(' ');
            proof {
                let entry = decimal(x + 1) + seq![' '];
                assert(header_cells(x + 1) =~= header_cells(x as int).push(entry));
                header_cells(x as int).lemma_flatten_push(entry);
                assert(out@ =~= seq![' ', ' '] + header_cells(x + 1).flatten());
            }
            x += 1;
        }
        out.push('\n');
        assert(header_cells(x as int) == header_cells(size as int));
        assert(out@ =~= header(size as int));
        assert(rows(board, reveal, 0).flatten() =~= Seq::<char>::empty());
        let mut y: i32 = 0;
        while y < size
            invariant
                0 <= y,
                y <= size || y == 0,
                size == board.size,
                board == self.grid@,
                reveal == self.see_unfound,
                labelled(size as int),
                all@ == board.occupied(),
                found@ == board.hits(),
                out@ == header(size as int) + rows(board, reveal, y as int).flatten(),
            decreases size - y,
        {
            let ghost done = out@;
            let mark = char::from_u32(65u32 + y as u32).unwrap();
            assert(mark == label(y as int));
            out.push(mark);
            out.push(' ');
            let mut x: i32 = 0;
            assert(row_cells(board, reveal, y as int, 0).flatten() =~= Seq::<char>::empty());
            while x < size
                invariant
                    0 <= x <= size,
                    0 <= y < size,
                    size == board.size,
                    reveal == self.see_unfound,
                    all@ == board.occupied(),
                    found@ == board.hits(),
                    out@ == done + seq![label(y as int), ' '] + row_cells(
                        board,
                        reveal,
                        y as int,
                        x as int,
                    ).flatten(),
                decreases size - x,
            {
                let cur = Location::new(x, y);
                proof {
                    board.lemma_listed(cur);
                }
                if listed(&found, cur) {
                    out.push('x');
                } else if self.see_unfound && listed(&all, cur) {
                    out.push('o');
                } else {
                    out.push('.');
                }
                out.push(' ');
                proof {
                    let entry = seq![glyph(board, reveal, cur), ' '];
                    let cells = row_cells(board, reveal, y as int, x as int);
                    assert(row_cells(board, reveal, y as int, x + 1) =~= cells.push(entry));
                    cells.lemma_flatten_push(entry);
                    assert(out@ =~= done + seq![label(y as int), ' '] + row_cells(
                        board,
                        reveal,
                        y as int,
                        x + 1,
                    ).flatten());
                }
                x += 1;
            }
            out.push('\n');
            proof {
                let line = row(board, reveal, y as int);
                let lines = rows(board, reveal, y as int);
                assert(rows(board, reveal, y + 1) =~= lines.push(line));
                lines.lemma_flatten_push(line);
                assert(out@ =~= header(size as int) + rows(board, reveal, y + 1).flatten());
            }
            y += 1;
        }
        assert(rows(board, reveal, y as int) == rows(board, reveal, size as int));
        out
    }
}

impl Grid {
    /// A view of the board for drawing; see [`GridDisplay`].
    pub fn get_display(&self, see_unfound: bool) -> (display: GridDisplay<'_>)
        ensures
            display.board() == self@,
            display.reveals() == see_unfound,
    {
        GridDisplay { grid: self, see_unfound }
    }
}

} // verus!
