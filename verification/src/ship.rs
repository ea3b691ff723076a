//! A vessel: a straight run of coordinates, each with a hit flag.

use vstd::prelude::*;
use crate::location::Location;
use crate::seqs::{lemma_filter_contains, lemma_filter_keeps_all};
use crate::text::same_text;

verus! {

/// The axis a vessel lies along. A horizontal vessel grows in `x`, a vertical
/// one in `y`.
#[derive(Clone, Copy, Debug, PartialEq, Eq, Structural)]
pub enum ShipDir {
    Horz,
    Vert,
}

/// One coordinate of a vessel, and whether a guess has found it.
#[derive(Clone, Copy, Debug, PartialEq, Eq, Structural)]
pub struct Cell {
    pub at: Location,
    pub hit: bool,
}

/// A vessel. Its coordinates are fixed when it is built; only hit flags change.
#[derive(Clone, Debug, PartialEq, Eq)]
pub struct Ship {
    cells: Vec<Cell>,
}

/// The mathematical content of a vessel: its cells in order.
pub struct ShipView {
    pub cells: Seq<Cell>,
}

impl View for Ship {
    type V = ShipView;

    closed spec fn view(&self) -> ShipView {
        ShipView { cells: self.cells@ }
    }
}

/// The point `i` steps from `start` along `dir`.
pub open spec fn offset(start: Location, dir: ShipDir, i: int) -> (int, int) {
    match dir {
        ShipDir::Horz => (start.x + i, start.y as int),
        ShipDir::Vert => (start.x as int, start.y + i),
    }
}

/// The location `i` steps from `start` along `dir`, where that point is
/// representable.
pub open spec fn spot(start: Location, dir: ShipDir, i: int) -> Location {
    Location { x: offset(start, dir, i).0 as i32, y: offset(start, dir, i).1 as i32 }
}

/// Whether every coordinate of a vessel of length `len` laid from `start`
/// along `dir` is representable.
pub open spec fn fits(start: Location, dir: ShipDir, len: int) -> bool {
    len <= 0 || Location::representable(offset(start, dir, len - 1))
}

impl ShipDir {
    /// The axis that a letter names: `H` or `V`, in either case.
    pub open spec fn named(letter: Seq<char>) -> Option<ShipDir> {
        if letter == "H"@ || letter == "h"@ {
            Some(ShipDir::Horz)
        } else if letter == "V"@ || letter == "v"@ {
            Some(ShipDir::Vert)
        } else {
            None
        }
    }

    /// Reads an axis from the letter `H` or `V`, in either case.
    pub fn from_input(input: &str) -> (dir: Option<ShipDir>)
        ensures
            dir == ShipDir::named(input@),
    {
        if same_text(input, "H") || same_text(input, "h") {
            Some(ShipDir::Horz)
        } else if same_text(input, "V") || same_text(input, "v") {
            Some(ShipDir::Vert)
        } else {
            None
        }
    }
}

impl ShipView {
    /// A fresh vessel of length `len` laid from `start` along `dir`, nothing
    /// hit. A length of zero or less gives a vessel without cells.
    pub open spec fn laid(start: Location, dir: ShipDir, len: int) -> ShipView {
        ShipView {
            cells: Seq::new(
                if len > 0 { len as nat } else { 0 },
                |i: int| Cell { at: spot(start, dir, i), hit: false },
            ),
        }
    }

    /// The coordinates of the vessel, in order.
    pub open spec fn coords(self) -> Seq<Location> {
        self.cells.map_values(|k: Cell| k.at)
    }

    /// The coordinates that have been hit, in order.
    pub open spec fn hit_coords(self) -> Seq<Location> {
        self.cells.filter(|k: Cell| k.hit).map_values(|k: Cell| k.at)
    }

    /// Whether `c` is one of the vessel's coordinates.
    pub open spec fn occupies(self, c: Location) -> bool {
        exists|i: int| 0 <= i < self.cells.len() && (#[trigger] self.cells[i]).at == c
    }

    /// Whether `c` is a coordinate of the vessel that has been hit.
    pub open spec fn is_hit(self, c: Location) -> bool {
        exists|i: int|
            0 <= i < self.cells.len() && (#[trigger] self.cells[i]).at == c && self.cells[i].hit
    }

    /// The vessel after a guess at `c`: every cell at `c` is hit, the rest is
    /// as before.
    pub open spec fn marked(self, c: Location) -> ShipView {
        ShipView {
            cells: self.cells.map_values(
                |k: Cell|
                    if k.at == c {
                        Cell { at: k.at, hit: true }
                    } else {
                        k
                    },
            ),
        }
    }

    /// Whether every coordinate has been hit.
    pub open spec fn destroyed(self) -> bool {
        forall|i: int| 0 <= i < self.cells.len() ==> (#[trigger] self.cells[i]).hit
    }

    /// Whether the cells step one by one along `dir` from the first cell.
    pub open spec fn runs_along(self, dir: ShipDir) -> bool {
        forall|i: int|
            0 <= i < self.cells.len() ==> (#[trigger] self.cells[i]).at.point() == offset(
                self.cells[0].at,
                dir,
                i,
            )
    }

    /// A vessel is well formed when its coordinates are contiguous along one
    /// axis.
    pub open spec fn wf(self) -> bool {
        self.runs_along(ShipDir::Horz) || self.runs_along(ShipDir::Vert)
    }

    /// A vessel laid out where it fits is well formed, has the length asked
    /// for, and its `i`-th coordinate lies `i` steps from the start.
    pub proof fn lemma_laid(start: Location, dir: ShipDir, len: int)
        requires
            fits(start, dir, len),
        ensures
            ShipView::laid(start, dir, len).wf(),
            ShipView::laid(start, dir, len).runs_along(dir),
            ShipView::laid(start, dir, len).cells.len() == if len > 0 { len } else { 0 },
            forall|i: int|
                0 <= i < len ==> {
                    &&& (#[trigger] ShipView::laid(start, dir, len).cells[i]).at.point() == offset(
                        start,
                        dir,
                        i,
                    )
                    &&& !ShipView::laid(start, dir, len).cells[i].hit
                },
    {
        let v = ShipView::laid(start, dir, len);
        assert forall|i: int| 0 <= i < v.cells.len() implies (#[trigger] v.cells[i]).at.point()
            == offset(v.cells[0].at, dir, i) by {
            assert(v.cells[0].at == start);
        }
    }

    /// Distinct cells of a well-formed vessel lie at distinct coordinates.
    pub proof fn lemma_cells_distinct(self, i: int, j: int)
        requires
            self.wf(),
            0 <= i < self.cells.len(),
            0 <= j < self.cells.len(),
            i != j,
        ensures
            self.cells[i].at != self.cells[j].at,
    {
    }

    /// A guess changes no coordinate: the vessel keeps its length, its cells
    /// stay where they are, and it stays well formed.
    pub proof fn lemma_marked_keeps_coords(self, c: Location)
        ensures
            self.marked(c).cells.len() == self.cells.len(),
            self.marked(c).coords() == self.coords(),
            forall|d: Location| self.marked(c).occupies(d) == self.occupies(d),
            self.wf() ==> self.marked(c).wf(),
    {
        let m = self.marked(c);
        assert(m.coords() =~= self.coords());
        assert forall|d: Location| m.occupies(d) == self.occupies(d) by {
            if self.occupies(d) {
                let i = choose|i: int| 0 <= i < self.cells.len() && (#[trigger] self.cells[i]).at == d;
                assert(m.cells[i].at == d);
            }
            if m.occupies(d) {
                let i = choose|i: int| 0 <= i < m.cells.len() && (#[trigger] m.cells[i]).at == d;
                assert(self.cells[i].at == d);
            }
        }
        if self.runs_along(ShipDir::Horz) {
            assert forall|i: int| 0 <= i < m.cells.len() implies (#[trigger] m.cells[i]).at.point()
                == offset(m.cells[0].at, ShipDir::Horz, i) by {
                assert(self.cells[i].at.point() == offset(self.cells[0].at, ShipDir::Horz, i));
            }
        }
        if self.runs_along(ShipDir::Vert) {
            assert forall|i: int| 0 <= i < m.cells.len() implies (#[trigger] m.cells[i]).at.point()
                == offset(m.cells[0].at, ShipDir::Vert, i) by {
                assert(self.cells[i].at.point() == offset(self.cells[0].at, ShipDir::Vert, i));
            }
        }
    }

    /// After a guess at `c`, `c` is hit exactly if the vessel occupies it, and
    /// any other coordinate is hit exactly if it was before.
    pub proof fn lemma_marked_hits(self, c: Location, d: Location)
        ensures
            self.marked(c).is_hit(d) == (self.is_hit(d) || (d == c && self.occupies(c))),
    {
        let m = self.marked(c);
        if m.is_hit(d) {
            let i = choose|i: int|
                0 <= i < m.cells.len() && (#[trigger] m.cells[i]).at == d && m.cells[i].hit;
            assert(self.cells[i].at == d);
        }
        if self.is_hit(d) {
            let i = choose|i: int|
                0 <= i < self.cells.len() && (#[trigger] self.cells[i]).at == d
                    && self.cells[i].hit;
            assert(m.cells[i].at == d && m.cells[i].hit);
        }
        if d == c && self.occupies(c) {
            let i = choose|i: int| 0 <= i < self.cells.len() && (#[trigger] self.cells[i]).at == c;
            assert(m.cells[i].at == d && m.cells[i].hit);
        }
    }

    /// The coordinate sequences agree with the predicates: a coordinate is
    /// listed exactly if it is occupied, and listed as hit exactly if it is hit.
    pub proof fn lemma_listed(self, c: Location)
        ensures
            self.coords().contains(c) == self.occupies(c),
            self.hit_coords().contains(c) == self.is_hit(c),
    {
        let coords = self.coords();
        if coords.contains(c) {
            let i = choose|i: int| 0 <= i < coords.len() && coords[i] == c;
            assert(self.cells[i].at == c);
        }
        if self.occupies(c) {
            let i = choose|i: int| 0 <= i < self.cells.len() && (#[trigger] self.cells[i]).at == c;
            assert(coords[i] == c);
        }
        let kept = self.cells.filter(|k: Cell| k.hit);
        let hits = self.hit_coords();
        if hits.contains(c) {
            let i = choose|i: int| 0 <= i < hits.len() && hits[i] == c;
            assert(kept.contains(kept[i]));
            lemma_filter_contains(self.cells, |k: Cell| k.hit, kept[i]);
            let j = choose|j: int| 0 <= j < self.cells.len() && self.cells[j] == kept[i];
            assert(self.cells[j].at == c && self.cells[j].hit);
        }
        if self.is_hit(c) {
            let j = choose|j: int|
                0 <= j < self.cells.len() && (#[trigger] self.cells[j]).at == c
                    && self.cells[j].hit;
            assert(self.cells.contains(self.cells[j]));
            lemma_filter_contains(self.cells, |k: Cell| k.hit, self.cells[j]);
            let i = choose|i: int| 0 <= i < kept.len() && kept[i] == self.cells[j];
            assert(hits[i] == c);
        }
    }

    /// No more coordinates are hit than the vessel has, and all of them are
    /// hit exactly if the vessel is destroyed.
    pub proof fn lemma_hit_count(self)
        ensures
            self.coords().len() == self.cells.len(),
            self.hit_coords().len() <= self.cells.len(),
            (self.hit_coords().len() == self.cells.len()) == self.destroyed(),
    {
        lemma_filter_keeps_all(self.cells, |k: Cell| k.hit);
    }

    /// A vessel that does not occupy `c` is not changed by a guess at `c`.
    pub proof fn lemma_marked_miss(ship: ShipView, c: Location)
        requires
            !ship.occupies(c),
        ensures
            ship.marked(c) == ship,
    {
        assert forall|i: int| 0 <= i < ship.cells.len() implies ship.marked(c).cells[i]
            == ship.cells[i] by {
            assert(ship.cells[i].at != c);
        }
        assert(ship.marked(c).cells =~= ship.cells);
    }

    /// A guess at a coordinate that is already hit changes nothing, on a
    /// well-formed vessel.
    pub proof fn lemma_marked_again(self, c: Location)
        requires
            self.wf(),
            self.is_hit(c),
        ensures
            self.marked(c) == self,
    {
        let k = choose|k: int|
            0 <= k < self.cells.len() && (#[trigger] self.cells[k]).at == c && self.cells[k].hit;
        assert forall|i: int| 0 <= i < self.cells.len() implies self.marked(c).cells[i]
            == self.cells[i] by {
            if i != k {
                self.lemma_cells_distinct(i, k);
            }
        }
        assert(self.marked(c).cells =~= self.cells);
    }

    /// Guessing the same coordinate again changes nothing.
    pub proof fn lemma_marked_idempotent(self, c: Location)
        ensures
            self.marked(c).marked(c) == self.marked(c),
            self.marked(c).occupies(c) == self.occupies(c),
    {
        assert(self.marked(c).marked(c).cells =~= self.marked(c).cells);
        self.lemma_marked_keeps_coords(c);
    }
}

impl Ship {
    /// Whether the vessel's coordinates are contiguous along one axis.
    pub open spec fn wf(&self) -> bool {
        self@.wf()
    }

    /// Lays a vessel of `len` cells from `start` along `dir`, nothing hit.
    /// Every coordinate must be representable; the board checks its own
    /// bounds when the vessel is placed.
    pub fn new(start: Location, dir: ShipDir, len: i32) -> (ship: Self)
        requires
            fits(start, dir, len as int),
        ensures
            ship@ == ShipView::laid(start, dir, len as int),
            ship.wf(),
    {
        let mut cells: Vec<Cell> = Vec::new();
        let mut o: i32 = 0;
        while o < len
            invariant
                0 <= o,
                o <= len || o == 0,
                fits(start, dir, len as int),
                cells@ == Seq::new(o as nat, |i: int| Cell { at: spot(start, dir, i), hit: false }),
            decreases len - o,
        {
            let at = match dir {
                ShipDir::Horz => Location::new(start.x + o, start.y),
                ShipDir::Vert => Location::new(start.x, start.y + o),
            };
            assert(at == spot(start, dir, o as int));
            cells.push(Cell { at, hit: false });
            o += 1;
            assert(cells@ =~= Seq::new(
                o as nat,
                |i: int| Cell { at: spot(start, dir, i), hit: false },
            ));
        }
        let ship = Ship { cells };
        proof {
            assert(ship@.cells =~= ShipView::laid(start, dir, len as int).cells);
            ShipView::lemma_laid(start, dir, len as int);
        }
        ship
    }

    /// Records a guess at `coord`. Returns whether the vessel occupies it; if
    /// so the coordinate is now hit, whether or not it was before.
    pub fn guess(&mut self, coord: Location) -> (hit: bool)
        ensures
            hit == old(self)@.occupies(coord),
            final(self)@ == old(self)@.marked(coord),
            old(self).wf() ==> final(self).wf(),
    {
        let mut hit = false;
        let mut i: usize = 0;
        while i < self.cells.len()
            invariant
                i <= self.cells.len(),
                self.cells@.len() == old(self).cells@.len(),
                hit == exists|j: int| 0 <= j < i && (#[trigger] old(self).cells@[j]).at == coord,
                forall|j: int|
                    0 <= j < i ==> #[trigger] self.cells@[j] == old(self)@.marked(coord).cells[j],
                forall|j: int|
                    i <= j < self.cells@.len() ==> #[trigger] self.cells@[j] == old(self).cells@[j],
            decreases self.cells.len() - i,
        {
            if self.cells[i].at == coord {
                self.cells.set(i, Cell { at: coord, hit: true });
                hit = true;
            }
            i += 1;
        }
        proof {
            assert(self@.cells =~= old(self)@.marked(coord).cells);
            old(self)@.lemma_marked_keeps_coords(coord);
        }
        hit
    }

    /// The number of coordinates the vessel occupies.
    pub fn len(&self) -> (n: usize)
        ensures
            n == self@.cells.len(),
    {
        self.cells.len()
    }

    /// The cells of the vessel, in order.
    pub fn cells(&self) -> (cells: &Vec<Cell>)
        ensures
            cells@ == self@.cells,
    {
        &self.cells
    }

    /// The coordinates of the vessel, in order.
    pub fn get_coords(&self) -> (coords: Vec<Location>)
        ensures
            coords@ == self@.coords(),
    {
        let mut coords: Vec<Location> = Vec::new();
        let mut i: usize = 0;
        while i < self.cells.len()
            invariant
                i <= self.cells.len(),
                coords@ == self@.cells.take(i as int).map_values(|k: Cell| k.at),
            decreases self.cells.len() - i,
        {
            coords.push(self.cells[i].at);
            i += 1;
            assert(coords@ =~= self@.cells.take(i as int).map_values(|k: Cell| k.at));
        }
        assert(self@.cells.take(i as int) =~= self@.cells);
        coords
    }

    /// The coordinates that have been hit, in order.
    pub fn get_found(&self) -> (found: Vec<Location>)
        ensures
            found@ == self@.hit_coords(),
    {
        let mut found: Vec<Location> = Vec::new();
        let mut i: usize = 0;
        assert(self@.cells.take(0) =~= Seq::<Cell>::empty());
        assert(Seq::<Cell>::empty().filter(|k: Cell| k.hit) =~= Seq::<Cell>::empty()) by {
            reveal(Seq::filter);
        }
        while i < self.cells.len()
            invariant
                i <= self.cells.len(),
                found@ == self@.cells.take(i as int).filter(|k: Cell| k.hit).map_values(
                    |k: Cell| k.at,
                ),
            decreases self.cells.len() - i,
        {
            proof {
                let before = self@.cells.take(i as int);
                assert(self@.cells.take(i + 1) =~= before.push(self@.cells[i as int]));
                before.lemma_filter_push(self@.cells[i as int], |k: Cell| k.hit);
            }
            if self.cells[i].hit {
                found.push(self.cells[i].at);
            }
            i += 1;
            assert(found@ =~= self@.cells.take(i as int).filter(|k: Cell| k.hit).map_values(
                |k: Cell| k.at,
            ));
        }
        assert(self@.cells.take(i as int) =~= self@.cells);
        found
    }

    /// Whether `coord` is one of the vessel's coordinates.
    pub fn occupies(&self, coord: Location) -> (yes: bool)
        ensures
            yes == self@.occupies(coord),
    {
        let mut i: usize = 0;
        while i < self.cells.len()
            invariant
                i <= self.cells.len(),
                forall|j: int| 0 <= j < i ==> (#[trigger] self@.cells[j]).at != coord,
            decreases self.cells.len() - i,
        {
            if self.cells[i].at == coord {
                assert(self@.cells[i as int].at == coord);
                return true;
            }
            i += 1;
        }
        false
    }

    /// Whether `coord` is a coordinate of the vessel that has been hit.
    pub fn is_hit(&self, coord: Location) -> (yes: bool)
        ensures
            yes == self@.is_hit(coord),
    {
        let mut i: usize = 0;
        while i < self.cells.len()
            invariant
                i <= self.cells.len(),
                forall|j: int|
                    0 <= j < i ==> !((#[trigger] self@.cells[j]).at == coord && self@.cells[j].hit),
            decreases self.cells.len() - i,
        {
            if self.cells[i].at == coord && self.cells[i].hit {
                assert(self@.cells[i as int].at == coord && self@.cells[i as int].hit);
                return true;
            }
            i += 1;
        }
        false
    }

    /// Whether every coordinate of the vessel has been hit.
    pub fn is_destroyed(&self) -> (yes: bool)
        ensures
            yes == self@.destroyed(),
    {
        let mut i: usize = 0;
        while i < self.cells.len()
            invariant
                i <= self.cells.len(),
                forall|j: int| 0 <= j < i ==> (#[trigger] self@.cells[j]).hit,
            decreases self.cells.len() - i,
        {
            if !self.cells[i].hit {
                assert(!self@.cells[i as int].hit);
                return false;
            }
            i += 1;
        }
        true
    }
}

} // verus!
