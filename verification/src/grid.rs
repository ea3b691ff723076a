//! A board: a square grid that owns one player's vessels.

use vstd::prelude::*;
use crate::location::Location;
use crate::seqs::{lemma_flatten_contains, lemma_flatten_len_compare, lemma_flatten_no_duplicates};
use crate::ship::{Ship, ShipView};

verus! {

/// Why a vessel could not be placed. An overlap is reported even where the
/// vessel also leaves the grid.
#[derive(Debug, Clone, Copy, PartialEq, Eq, Structural)]
pub enum AddShipError {
    ShipOutOfBounds,
    ShipOverlap,
}

/// A board of `size` by `size` coordinates, `0 <= x, y < size`, with the
/// vessels placed on it so far, in the order they were placed.
#[derive(Clone, Debug, PartialEq, Eq)]
pub struct Grid {
    ships: Vec<Ship>,
    size: i32,
}

/// The mathematical content of a board.
pub struct GridView {
    pub ships: Seq<ShipView>,
    pub size: int,
}

impl View for Grid {
    type V = GridView;

    closed spec fn view(&self) -> GridView {
        GridView { ships: self.ships@.map_values(|s: Ship| s@), size: self.size as int }
    }
}

impl GridView {
    /// A board without vessels.
    pub open spec fn empty(size: int) -> GridView {
        GridView { ships: Seq::empty(), size }
    }

    /// Whether `c` lies on the board.
    pub open spec fn in_bounds(self, c: Location) -> bool {
        0 <= c.x < self.size && 0 <= c.y < self.size
    }

    /// Whether every coordinate of `ship` lies on the board.
    pub open spec fn holds(self, ship: ShipView) -> bool {
        forall|k: int| 0 <= k < ship.cells.len() ==> self.in_bounds((#[trigger] ship.cells[k]).at)
    }

    /// Whether some vessel on the board occupies `c`.
    pub open spec fn occupies(self, c: Location) -> bool {
        exists|i: int| 0 <= i < self.ships.len() && (#[trigger] self.ships[i]).occupies(c)
    }

    /// Whether `c` is a coordinate of some vessel and has been hit.
    pub open spec fn is_hit(self, c: Location) -> bool {
        exists|i: int| 0 <= i < self.ships.len() && (#[trigger] self.ships[i]).is_hit(c)
    }

    /// Whether `ship` shares a coordinate with a vessel on the board.
    pub open spec fn overlaps(self, ship: ShipView) -> bool {
        exists|k: int| 0 <= k < ship.cells.len() && self.occupies((#[trigger] ship.cells[k]).at)
    }

    /// Every occupied coordinate: vessels in placement order, each vessel's
    /// coordinates in its own order.
    pub open spec fn occupied(self) -> Seq<Location> {
        self.ships.map_values(|s: ShipView| s.coords()).flatten()
    }

    /// Every hit coordinate, in the same order.
    pub open spec fn hits(self) -> Seq<Location> {
        self.ships.map_values(|s: ShipView| s.hit_coords()).flatten()
    }

    /// Whether as many coordinates are hit as are occupied.
    pub open spec fn lost(self) -> bool {
        self.hits().len() == self.occupied().len()
    }

    /// Placing `ship`: refused for an overlap first, then for leaving the
    /// grid; otherwise the vessel is appended.
    pub open spec fn place(self, ship: ShipView) -> (GridView, Result<(), AddShipError>) {
        if self.overlaps(ship) {
            (self, Err(AddShipError::ShipOverlap))
        } else if !self.holds(ship) {
            (self, Err(AddShipError::ShipOutOfBounds))
        } else {
            (GridView { ships: self.ships.push(ship), size: self.size }, Ok(()))
        }
    }

    /// Whether a vessel placed before the `i`-th occupies `c`.
    pub open spec fn occupied_before(self, i: int, c: Location) -> bool {
        exists|j: int| 0 <= j < i && j < self.ships.len() && (#[trigger] self.ships[j]).occupies(c)
    }

    /// The board after a guess at `c`: the first vessel that occupies `c`
    /// records the hit, and every other vessel is as before.
    pub open spec fn shot(self, c: Location) -> GridView {
        GridView {
            ships: Seq::new(
                self.ships.len(),
                |i: int|
                    if self.occupied_before(i, c) {
                        self.ships[i]
                    } else {
                        self.ships[i].marked(c)
                    },
            ),
            size: self.size,
        }
    }

    /// No coordinate belongs to two vessels.
    pub open spec fn disjoint(self) -> bool {
        forall|i: int, j: int, c: Location|
            #![trigger self.ships[i].occupies(c), self.ships[j].occupies(c)]
            0 <= i < j < self.ships.len() && self.ships[i].occupies(c) ==> !self.ships[j].occupies(c)
    }

    /// A board is well formed when its vessels are, every occupied
    /// coordinate lies on the board, and no two vessels overlap.
    pub open spec fn wf(self) -> bool {
        &&& forall|i: int| 0 <= i < self.ships.len() ==> (#[trigger] self.ships[i]).wf()
        &&& forall|i: int| 0 <= i < self.ships.len() ==> self.holds(#[trigger] self.ships[i])
        &&& self.disjoint()
    }

    /// Placing a well-formed vessel on a well-formed board leaves the board
    /// well formed, whether the vessel is accepted or refused.
    pub proof fn lemma_place_keeps_wf(self, ship: ShipView)
        requires
            self.wf(),
            ship.wf(),
        ensures
            self.place(ship).0.wf(),
    {
        let after = self.place(ship).0;
        if self.place(ship).1 is Ok {
            let n = self.ships.len() as int;
            assert forall|i: int, j: int, c: Location|
                #![trigger after.ships[i].occupies(c), after.ships[j].occupies(c)]
                0 <= i < j < after.ships.len() && after.ships[i].occupies(
                    c,
                ) implies !after.ships[j].occupies(c) by {
                if j == n {
                    if ship.occupies(c) {
                        let k = choose|k: int|
                            0 <= k < ship.cells.len() && (#[trigger] ship.cells[k]).at == c;
                        assert(self.ships[i].occupies(c));
                        assert(self.occupies(ship.cells[k].at));
                    }
                } else {
                    assert(self.ships[i].occupies(c));
                    assert(after.ships[j] == self.ships[j]);
                }
            }
            assert forall|i: int| 0 <= i < after.ships.len() implies after.holds(
                #[trigger] after.ships[i],
            ) by {
                if i < n {
                    assert(self.holds(self.ships[i]));
                }
            }
        }
    }

    /// A guess leaves a well-formed board well formed.
    pub proof fn lemma_shot_keeps_wf(self, c: Location)
        requires
            self.wf(),
        ensures
            self.shot(c).wf(),
    {
        let after = self.shot(c);
        assert forall|i: int| 0 <= i < after.ships.len() implies {
            &&& (#[trigger] after.ships[i]).wf()
            &&& after.holds(after.ships[i])
            &&& forall|d: Location| after.ships[i].occupies(d) == self.ships[i].occupies(d)
        } by {
            self.ships[i].lemma_marked_keeps_coords(c);
            assert(self.holds(self.ships[i]));
            assert(self.ships[i].wf());
            assert forall|k: int| 0 <= k < after.ships[i].cells.len() implies after.in_bounds(
                (#[trigger] after.ships[i].cells[k]).at,
            ) by {
                assert(self.in_bounds(self.ships[i].cells[k].at));
            }
        }
        assert forall|i: int, j: int, d: Location|
            #![trigger after.ships[i].occupies(d), after.ships[j].occupies(d)]
            0 <= i < j < after.ships.len() && after.ships[i].occupies(d) implies !after.ships[j].occupies(
                d,
            ) by {
            assert(self.ships[i].occupies(d));
            assert(!self.ships[j].occupies(d));
        }
    }

    /// The coordinate sequences agree with the predicates: a coordinate is
    /// listed as occupied exactly if some vessel occupies it, and listed as
    /// hit exactly if it is hit.
    pub proof fn lemma_listed(self, c: Location)
        ensures
            self.occupied().contains(c) == self.occupies(c),
            self.hits().contains(c) == self.is_hit(c),
    {
        let all = self.ships.map_values(|s: ShipView| s.coords());
        let found = self.ships.map_values(|s: ShipView| s.hit_coords());
        lemma_flatten_contains(all, c);
        lemma_flatten_contains(found, c);
        assert forall|i: int| 0 <= i < self.ships.len() implies (#[trigger] all[i]).contains(c)
            == self.ships[i].occupies(c) by {
            self.ships[i].lemma_listed(c);
        }
        assert forall|i: int| 0 <= i < self.ships.len() implies (#[trigger] found[i]).contains(c)
            == self.ships[i].is_hit(c) by {
            self.ships[i].lemma_listed(c);
        }
        if self.occupies(c) {
            let i = choose|i: int| 0 <= i < self.ships.len() && (#[trigger] self.ships[i]).occupies(c);
            assert(all[i].contains(c));
        }
        if self.is_hit(c) {
            let i = choose|i: int| 0 <= i < self.ships.len() && (#[trigger] self.ships[i]).is_hit(c);
            assert(found[i].contains(c));
        }
    }

    /// Never more coordinates are hit than occupied, and the two counts are
    /// equal exactly if every vessel is destroyed.
    pub proof fn lemma_lost_means_all_destroyed(self)
        ensures
            self.hits().len() <= self.occupied().len(),
            self.lost() <==> forall|i: int|
                0 <= i < self.ships.len() ==> (#[trigger] self.ships[i]).destroyed(),
    {
        let all = self.ships.map_values(|s: ShipView| s.coords());
        let found = self.ships.map_values(|s: ShipView| s.hit_coords());
        assert forall|i: int| 0 <= i < self.ships.len() implies {
            &&& (#[trigger] found[i]).len() <= all[i].len()
            &&& (found[i].len() == all[i].len()) == self.ships[i].destroyed()
        } by {
            self.ships[i].lemma_hit_count();
        }
        assert forall|i: int| 0 <= i < self.ships.len() implies (found[i].len() == all[i].len()) == (
        #[trigger] self.ships[i]).destroyed() by {
            self.ships[i].lemma_hit_count();
        }
        lemma_flatten_len_compare(all, found);
        if self.lost() {
            assert forall|i: int| 0 <= i < self.ships.len() implies (
            #[trigger] self.ships[i]).destroyed() by {
                assert(found[i].len() == all[i].len());
            }
        }
        if forall|i: int| 0 <= i < self.ships.len() ==> (#[trigger] self.ships[i]).destroyed() {
            assert forall|i: int| 0 <= i < all.len() implies (#[trigger] found[i]).len()
                == all[i].len() by {
                assert(self.ships[i].destroyed());
            }
        }
    }

    /// On a well-formed board no coordinate is occupied twice.
    pub proof fn lemma_occupied_once(self)
        requires
            self.wf(),
        ensures
            self.occupied().no_duplicates(),
    {
        let all = self.ships.map_values(|s: ShipView| s.coords());
        assert forall|i: int| 0 <= i < all.len() implies (#[trigger] all[i]).no_duplicates() by {
            let ship = self.ships[i];
            assert(ship.wf());
            assert forall|a: int, b: int|
                0 <= a < all[i].len() && 0 <= b < all[i].len() && a != b implies all[i][a]
                != all[i][b] by {
                ship.lemma_cells_distinct(a, b);
            }
        }
        assert forall|i: int, j: int, x: Location|
            #![trigger all[i].contains(x), all[j].contains(x)]
            0 <= i < j < all.len() && all[i].contains(x) implies !all[j].contains(x) by {
            self.ships[i].lemma_listed(x);
            self.ships[j].lemma_listed(x);
            assert(self.ships[i].occupies(x));
            assert(!self.ships[j].occupies(x));
        }
        lemma_flatten_no_duplicates(all);
    }

    /// A vessel that shares a coordinate with one already placed is refused
    /// as an overlap, whether or not it also leaves the grid, and the board
    /// stays as it was.
    pub proof fn lemma_overlap_refused(self, first: ShipView, second: ShipView, c: Location)
        requires
            self.place(first).1 is Ok,
            first.occupies(c),
            second.occupies(c),
        ensures
            self.place(first).0.place(second) == (
                self.place(first).0,
                Err::<(), AddShipError>(AddShipError::ShipOverlap),
            ),
    {
        let board = self.place(first).0;
        let k = choose|k: int| 0 <= k < second.cells.len() && (#[trigger] second.cells[k]).at == c;
        assert(board.ships[self.ships.len() as int].occupies(c));
        assert(board.occupies(second.cells[k].at));
    }

    /// A vessel with a coordinate off the grid is refused. One that lies
    /// wholly on the grid is accepted exactly if it overlaps no vessel
    /// already placed, and is then appended.
    pub proof fn lemma_bounds_decide(self, ship: ShipView)
        ensures
            !self.holds(ship) ==> self.place(ship).1 is Err && self.place(ship).0 == self,
            self.holds(ship) ==> (self.place(ship).1 is Ok <==> !self.overlaps(ship)),
            self.holds(ship) && !self.overlaps(ship) ==> self.place(ship) == (
                GridView { ships: self.ships.push(ship), size: self.size },
                Ok::<(), AddShipError>(()),
            ),
    {
    }

    /// On a well-formed board at most one vessel occupies a coordinate, so a
    /// guess is the same as asking every vessel to record it.
    pub proof fn lemma_shot_marks_all(self, c: Location)
        requires
            self.wf(),
        ensures
            self.shot(c).ships == self.ships.map_values(|s: ShipView| s.marked(c)),
    {
        let all = self.ships.map_values(|s: ShipView| s.marked(c));
        assert forall|i: int| 0 <= i < self.ships.len() implies self.shot(c).ships[i] == all[i] by {
            if self.occupied_before(i, c) {
                let j = choose|j: int|
                    0 <= j < i && j < self.ships.len() && (#[trigger] self.ships[j]).occupies(c);
                assert(!self.ships[i].occupies(c));
                ShipView::lemma_marked_miss(self.ships[i], c);
            }
        }
        assert(self.shot(c).ships =~= all);
    }

    /// A guess moves no vessel: the board keeps its size, and every vessel
    /// its coordinates.
    pub proof fn lemma_shot_keeps_coords(self, c: Location)
        ensures
            self.shot(c).size == self.size,
            self.shot(c).ships.len() == self.ships.len(),
            forall|i: int|
                0 <= i < self.ships.len() ==> (#[trigger] self.shot(c).ships[i]).coords()
                    == self.ships[i].coords(),
            self.shot(c).occupied() == self.occupied(),
            forall|d: Location| self.shot(c).occupies(d) == self.occupies(d),
    {
        let after = self.shot(c);
        assert forall|i: int| 0 <= i < self.ships.len() implies {
            &&& (#[trigger] after.ships[i]).coords() == self.ships[i].coords()
            &&& forall|d: Location| after.ships[i].occupies(d) == self.ships[i].occupies(d)
        } by {
            self.ships[i].lemma_marked_keeps_coords(c);
        }
        assert(after.ships.map_values(|s: ShipView| s.coords()) =~= self.ships.map_values(
            |s: ShipView| s.coords(),
        ));
        assert forall|d: Location| after.occupies(d) == self.occupies(d) by {
            if after.occupies(d) {
                let i = choose|i: int|
                    0 <= i < after.ships.len() && (#[trigger] after.ships[i]).occupies(d);
                assert(self.ships[i].occupies(d));
            }
            if self.occupies(d) {
                let i = choose|i: int|
                    0 <= i < self.ships.len() && (#[trigger] self.ships[i]).occupies(d);
                assert(after.ships[i].occupies(d));
            }
        }
    }

    /// After a guess at `c`, `c` is hit exactly if it is occupied, and any
    /// other coordinate is hit exactly if it was before.
    pub proof fn lemma_shot_hits(self, c: Location, d: Location)
        ensures
            self.shot(c).is_hit(d) == (self.is_hit(d) || (d == c && self.occupies(c))),
    {
        let after = self.shot(c);
        assert forall|i: int| 0 <= i < self.ships.len() implies {
            &&& (#[trigger] after.ships[i]).is_hit(d) ==> self.ships[i].is_hit(d) || (d == c
                && self.ships[i].occupies(c))
            &&& self.ships[i].is_hit(d) ==> after.ships[i].is_hit(d)
        } by {
            self.ships[i].lemma_marked_hits(c, d);
        }
        if after.is_hit(d) {
            let i = choose|i: int| 0 <= i < after.ships.len() && (#[trigger] after.ships[i]).is_hit(d);
            assert(self.ships[i].is_hit(d) || (d == c && self.ships[i].occupies(c)));
        }
        if self.is_hit(d) {
            let i = choose|i: int| 0 <= i < self.ships.len() && (#[trigger] self.ships[i]).is_hit(d);
            assert(after.ships[i].is_hit(d));
        }
        if d == c && self.occupies(c) {
            let i = self.first_occupier(c);
            self.lemma_first_occupier(c);
            self.ships[i].lemma_marked_hits(c, c);
            assert(after.ships[i].is_hit(c));
        }
    }

    /// The first vessel that occupies `c`, where there is one.
    pub open spec fn first_occupier(self, c: Location) -> int {
        choose|i: int|
            0 <= i < self.ships.len() && (#[trigger] self.ships[i]).occupies(c)
                && !self.occupied_before(i, c)
    }

    /// Where a vessel occupies `c`, one of them is the first.
    pub proof fn lemma_first_occupier(self, c: Location)
        requires
            self.occupies(c),
        ensures
            0 <= self.first_occupier(c) < self.ships.len(),
            self.ships[self.first_occupier(c)].occupies(c),
            !self.occupied_before(self.first_occupier(c), c),
    {
        let some = choose|i: int| 0 <= i < self.ships.len() && (#[trigger] self.ships[i]).occupies(c);
        self.lemma_least_occupier(c, some);
    }

    proof fn lemma_least_occupier(self, c: Location, bound: int)
        requires
            0 <= bound < self.ships.len(),
            self.ships[bound].occupies(c),
        ensures
            exists|i: int|
                0 <= i < self.ships.len() && (#[trigger] self.ships[i]).occupies(c)
                    && !self.occupied_before(i, c),
        decreases bound,
    {
        if self.occupied_before(bound, c) {
            let j = choose|j: int|
                0 <= j < bound && j < self.ships.len() && (#[trigger] self.ships[j]).occupies(c);
            self.lemma_least_occupier(c, j);
        }
    }

    /// Guessing a coordinate again leaves the board as the first guess left
    /// it, and gives the same answer.
    pub proof fn lemma_shot_idempotent(self, c: Location)
        ensures
            self.shot(c).shot(c) == self.shot(c),
            self.shot(c).occupies(c) == self.occupies(c),
    {
        let once = self.shot(c);
        let twice = once.shot(c);
        self.lemma_shot_keeps_coords(c);
        assert forall|i: int| 0 <= i < self.ships.len() implies twice.ships[i] == once.ships[i] by {
            assert forall|j: int| 0 <= j < self.ships.len() implies (#[trigger] once.ships[j]).occupies(c)
                == self.ships[j].occupies(c) by {
                self.ships[j].lemma_marked_keeps_coords(c);
            }
            if self.occupied_before(i, c) {
                let j = choose|j: int|
                    0 <= j < i && j < self.ships.len() && (#[trigger] self.ships[j]).occupies(c);
                assert(once.ships[j].occupies(c));
                assert(once.occupied_before(i, c));
            } else {
                if once.occupied_before(i, c) {
                    let j = choose|j: int|
                        0 <= j < i && j < once.ships.len() && (#[trigger] once.ships[j]).occupies(c);
                    assert(self.ships[j].occupies(c));
                }
                self.ships[i].lemma_marked_idempotent(c);
            }
        }
        assert(twice.ships =~= once.ships);
    }

    /// On a well-formed board a guess at a coordinate that is already hit
    /// changes nothing, and is a hit again.
    pub proof fn lemma_shot_again(self, c: Location)
        requires
            self.wf(),
            self.is_hit(c),
        ensures
            self.shot(c) == self,
            self.occupies(c),
    {
        let j = choose|j: int| 0 <= j < self.ships.len() && (#[trigger] self.ships[j]).is_hit(c);
        self.ships[j].lemma_marked_hits(c, c);
        let k = choose|k: int|
            0 <= k < self.ships[j].cells.len() && (#[trigger] self.ships[j].cells[k]).at == c
                && self.ships[j].cells[k].hit;
        assert(self.ships[j].occupies(c));
        self.lemma_shot_marks_all(c);
        assert forall|i: int| 0 <= i < self.ships.len() implies self.shot(c).ships[i]
            == self.ships[i] by {
            if i == j {
                assert(self.ships[j].wf());
                self.ships[j].lemma_marked_again(c);
            } else {
                assert(!self.ships[i].occupies(c));
                ShipView::lemma_marked_miss(self.ships[i], c);
            }
        }
        assert(self.shot(c).ships =~= self.ships);
    }
}

impl Grid {
    /// Whether the board's invariant holds: see [`GridView::wf`].
    pub open spec fn wf(&self) -> bool {
        self@.wf()
    }

    /// An empty board of `size` by `size` coordinates.
    pub fn new(size: i32) -> (grid: Self)
        ensures
            grid@ == GridView::empty(size as int),
            grid.wf(),
    {
        let grid = Self { ships: Vec::new(), size };
        assert(grid@.ships =~= Seq::empty());
        grid
    }

    /// The side length of the board.
    pub fn size(&self) -> (size: i32)
        ensures
            size == self@.size,
    {
        self.size
    }

    /// The vessels on the board, in placement order.
    pub fn ships(&self) -> (ships: &Vec<Ship>)
        ensures
            ships@.len() == self@.ships.len(),
            forall|i: int| 0 <= i < ships@.len() ==> (#[trigger] ships@[i])@ == self@.ships[i],
    {
        &self.ships
    }

    /// Whether some vessel on the board occupies `coord`.
    pub fn occupies(&self, coord: Location) -> (yes: bool)
        ensures
            yes == self@.occupies(coord),
    {
        let mut i: usize = 0;
        while i < self.ships.len()
            invariant
                i <= self.ships.len(),
                forall|j: int| 0 <= j < i ==> !(#[trigger] self@.ships[j]).occupies(coord),
            decreases self.ships.len() - i,
        {
            if self.ships[i].occupies(coord) {
                assert(self@.ships[i as int].occupies(coord));
                return true;
            }
            i += 1;
        }
        false
    }

    /// Whether `coord` is a coordinate of some vessel and has been hit.
    pub fn is_hit(&self, coord: Location) -> (yes: bool)
        ensures
            yes == self@.is_hit(coord),
    {
        let mut i: usize = 0;
        while i < self.ships.len()
            invariant
                i <= self.ships.len(),
                forall|j: int| 0 <= j < i ==> !(#[trigger] self@.ships[j]).is_hit(coord),
            decreases self.ships.len() - i,
        {
            if self.ships[i].is_hit(coord) {
                assert(self@.ships[i as int].is_hit(coord));
                return true;
            }
            i += 1;
        }
        false
    }

    /// Whether `ship` shares a coordinate with a vessel on the board.
    pub fn overlaps(&self, ship: &Ship) -> (yes: bool)
        ensures
            yes == self@.overlaps(ship@),
    {
        let cells = ship.cells();
        let mut k: usize = 0;
        while k < cells.len()
            invariant
                k <= cells.len(),
                cells@ == ship@.cells,
                forall|j: int| 0 <= j < k ==> !self@.occupies((#[trigger] ship@.cells[j]).at),
            decreases cells.len() - k,
        {
            if self.occupies(cells[k].at) {
                assert(self@.occupies(ship@.cells[k as int].at));
                return true;
            }
            k += 1;
        }
        false
    }

    /// Whether every coordinate of `ship` lies on the board.
    pub fn holds(&self, ship: &Ship) -> (yes: bool)
        ensures
            yes == self@.holds(ship@),
    {
        let cells = ship.cells();
        let mut k: usize = 0;
        while k < cells.len()
            invariant
                k <= cells.len(),
                cells@ == ship@.cells,
                forall|j: int| 0 <= j < k ==> self@.in_bounds((#[trigger] ship@.cells[j]).at),
            decreases cells.len() - k,
        {
            let c = cells[k].at;
            if c.x >= self.size || c.x < 0 || c.y >= self.size || c.y < 0 {
                assert(!self@.in_bounds(ship@.cells[k as int].at));
                return false;
            }
            k += 1;
        }
        true
    }

    /// Places `ship` on the board. An overlap with a vessel already there is
    /// reported first, then a coordinate off the grid; on either error the
    /// board is unchanged.
    pub fn add_ship(&mut self, ship: Ship) -> (placed: Result<(), AddShipError>)
        ensures
            (final(self)@, placed) == old(self)@.place(ship@),
            old(self).wf() && ship.wf() ==> final(self).wf(),
    {
        if self.overlaps(&ship) {
            return Err(AddShipError::ShipOverlap);
        }
        if !self.holds(&ship) {
            return Err(AddShipError::ShipOutOfBounds);
        }
        self.ships.push(ship);
        proof {
            assert(self@.ships =~= old(self)@.ships.push(ship@));
            if old(self).wf() && ship.wf() {
                old(self)@.lemma_place_keeps_wf(ship@);
            }
        }
        Ok(())
    }

    /// Every occupied coordinate: vessels in placement order, each vessel's
    /// coordinates in its own order.
    pub fn get_all(&self) -> (all: Vec<Location>)
        ensures
            all@ == self@.occupied(),
    {
        let mut all: Vec<Location> = Vec::new();
        let mut i: usize = 0;
        assert(self@.ships.take(0).map_values(|s: ShipView| s.coords()) =~= Seq::empty());
        while i < self.ships.len()
            invariant
                i <= self.ships.len(),
                all@ == self@.ships.take(i as int).map_values(|s: ShipView| s.coords()).flatten(),
            decreases self.ships.len() - i,
        {
            let mut coords = self.ships[i].get_coords();
            proof {
                let before = self@.ships.take(i as int).map_values(|s: ShipView| s.coords());
                assert(self@.ships.take(i + 1).map_values(|s: ShipView| s.coords()) =~= before.push(
                    coords@,
                ));
                before.lemma_flatten_push(coords@);
            }
            all.append(&mut coords);
            i += 1;
        }
        assert(self@.ships.take(i as int) =~= self@.ships);
        all
    }

    /// Every hit coordinate, in the same order as [`Grid::get_all`].
    pub fn get_all_found(&self) -> (found: Vec<Location>)
        ensures
            found@ == self@.hits(),
    {
        let mut found: Vec<Location> = Vec::new();
        let mut i: usize = 0;
        assert(self@.ships.take(0).map_values(|s: ShipView| s.hit_coords()) =~= Seq::empty());
        while i < self.ships.len()
            invariant
                i <= self.ships.len(),
                found@ == self@.ships.take(i as int).map_values(
                    |s: ShipView| s.hit_coords(),
                ).flatten(),
            decreases self.ships.len() - i,
        {
            let mut coords = self.ships[i].get_found();
            proof {
                let before = self@.ships.take(i as int).map_values(|s: ShipView| s.hit_coords());
                assert(self@.ships.take(i + 1).map_values(|s: ShipView| s.hit_coords())
                    =~= before.push(coords@));
                before.lemma_flatten_push(coords@);
            }
            found.append(&mut coords);
            i += 1;
        }
        assert(self@.ships.take(i as int) =~= self@.ships);
        found
    }

    /// Whether the fleet is fully destroyed: as many coordinates hit as
    /// occupied.
    pub fn check_loss(&self) -> (lost: bool)
        ensures
            lost == self@.lost(),
    {
        self.get_all().len() == self.get_all_found().len()
    }

    /// Resolves a guess at `coords`: the vessels are asked in placement order
    /// and the first that occupies the coordinate records the hit. Returns
    /// whether any vessel was hit.
    pub fn guess_grid(&mut self, coords: Location) -> (hit: bool)
        ensures
            hit == old(self)@.occupies(coords),
            final(self)@ == old(self)@.shot(coords),
            old(self).wf() ==> final(self).wf(),
    {
        let mut i: usize = 0;
        while i < self.ships.len()
            invariant
                i <= self.ships.len(),
                self.size == old(self).size,
                self@.ships == old(self)@.ships,
                forall|j: int| 0 <= j < i ==> !(#[trigger] old(self)@.ships[j]).occupies(coords),
            decreases self.ships.len() - i,
        {
            let ghost before = self@;
            if self.ships[i].guess(coords) {
                proof {
                    assert(before.ships[i as int].occupies(coords));
                    assert forall|j: int| 0 <= j < before.ships.len() implies self@.ships[j]
                        == before.shot(coords).ships[j] by {
                        if j < i {
                            ShipView::lemma_marked_miss(before.ships[j], coords);
                        } else if j > i {
                            assert(before.occupied_before(j, coords));
                        }
                    }
                    assert(self@.ships =~= before.shot(coords).ships);
                    if old(self).wf() {
                        before.lemma_shot_keeps_wf(coords);
                    }
                }
                return true;
            }
            proof {
                ShipView::lemma_marked_miss(before.ships[i as int], coords);
                assert(self@.ships =~= before.ships);
            }
            i += 1;
        }
        proof {
            let before = old(self)@;
            assert forall|j: int| 0 <= j < before.ships.len() implies before.ships[j]
                == before.shot(coords).ships[j] by {
                ShipView::lemma_marked_miss(before.ships[j], coords);
            }
            assert(self@.ships =~= before.shot(coords).ships);
        }
        false
    }
}

} // verus!
