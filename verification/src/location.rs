//! Grid coordinates and the four directions a coordinate can step in.

use vstd::prelude::*;
use crate::text::{push_decimal, same_text, decimal};

verus! {

/// What `str::to_uppercase` returns for a text, character sequence to
/// character sequence.
pub uninterp spec fn uppercase(text: Seq<char>) -> Seq<char>;

/// `str::to_uppercase` from the standard library. The Unicode case mapping
/// is not spelled out here; the result is only given its name.
pub assume_specification[ str::to_uppercase ](text: &str) -> (upper: String)
    ensures
        upper@ == uppercase(text@),
;

/// The distance between two points on one axis.
pub open spec fn span(a: int, b: int) -> int {
    if a >= b {
        a - b
    } else {
        b - a
    }
}

/// The distance between two points on one axis. It always fits: two `i32`
/// values are at most `u32::MAX` apart.
pub fn points_dist(a: i32, b: i32) -> (d: u32)
    ensures
        d == span(a as int, b as int),
{
    if a >= b {
        (a as i64 - b as i64) as u32
    } else {
        (b as i64 - a as i64) as u32
    }
}

/// A position on the grid. Nothing restricts it to a board: bounds are the
/// board's business.
#[derive(Clone, Copy, Debug, PartialEq, Eq, PartialOrd, Ord, Hash, Structural)]
pub struct Location {
    pub x: i32,
    pub y: i32,
}

/// One step along an axis. `Up` and `Right` increase `y` and `x`.
#[derive(Clone, Copy, Debug, PartialEq, Eq, PartialOrd, Ord, Hash, Structural)]
pub enum Dir {
    Up,
    Down,
    Left,
    Right,
}

impl Dir {
    /// The direction that an upper-case word or letter names.
    pub open spec fn named(upper: Seq<char>) -> Option<Dir> {
        if upper == "DOWN"@ || upper == "D"@ {
            Some(Dir::Down)
        } else if upper == "UP"@ || upper == "U"@ {
            Some(Dir::Up)
        } else if upper == "LEFT"@ || upper == "L"@ {
            Some(Dir::Left)
        } else if upper == "RIGHT"@ || upper == "R"@ {
            Some(Dir::Right)
        } else {
            None
        }
    }

    /// Reads a direction from text that is already in upper case.
    pub fn from_upper(upper: &str) -> (dir: Option<Dir>)
        ensures
            dir == Dir::named(upper@),
    {
        if same_text(upper, "DOWN") || same_text(upper, "D") {
            Some(Dir::Down)
        } else if same_text(upper, "UP") || same_text(upper, "U") {
            Some(Dir::Up)
        } else if same_text(upper, "LEFT") || same_text(upper, "L") {
            Some(Dir::Left)
        } else if same_text(upper, "RIGHT") || same_text(upper, "R") {
            Some(Dir::Right)
        } else {
            None
        }
    }

    /// Reads a direction from its name or its first letter, in any case.
    pub fn from_input(input: &str) -> (dir: Option<Dir>)
        ensures
            dir == Dir::named(uppercase(input@)),
    {
        let upper = input.to_uppercase();
        Dir::from_upper(upper.as_str())
    }
}

impl Location {
    /// The location as a pair of mathematical integers.
    pub open spec fn point(self) -> (int, int) {
        (self.x as int, self.y as int)
    }

    /// Where one step in `dir` leads from here.
    pub open spec fn stepped(self, dir: Dir) -> (int, int) {
        match dir {
            Dir::Up => (self.x as int, self.y + 1),
            Dir::Down => (self.x as int, self.y - 1),
            Dir::Left => (self.x - 1, self.y as int),
            Dir::Right => (self.x + 1, self.y as int),
        }
    }

    /// The componentwise difference `self - other`.
    pub open spec fn offset_from(self, other: Location) -> (int, int) {
        (self.x - other.x, self.y - other.y)
    }

    /// Whether both numbers of a pair are coordinates a `Location` can hold.
    pub open spec fn representable(p: (int, int)) -> bool {
        i32::MIN <= p.0 <= i32::MAX && i32::MIN <= p.1 <= i32::MAX
    }

    /// The permissive adjacency of this game: two locations are neighbours
    /// unless they lie more than one apart on both axes.
    pub open spec fn neighbours(self, other: Location) -> bool {
        !(span(self.x as int, other.x as int) > 1 && span(self.y as int, other.y as int) > 1)
    }

    /// The square of the Euclidean distance to `other`.
    pub open spec fn distance_squared(self, other: Location) -> int {
        (self.x - other.x) * (self.x - other.x) + (self.y - other.y) * (self.y - other.y)
    }

    /// How this location is written: "(x, y)".
    pub open spec fn text(self) -> Seq<char> {
        seq!['('] + decimal(self.x as int) + seq![',', ' '] + decimal(self.y as int) + seq![')']
    }

    pub fn new(x: i32, y: i32) -> (loc: Self)
        ensures
            loc.x == x,
            loc.y == y,
    {
        Self { x, y }
    }

    /// Moves one step in `dir`. The step must not leave the range of `i32`.
    pub fn move_dir(&mut self, dir: Dir)
        requires
            Location::representable(old(self).stepped(dir)),
        ensures
            final(self).point() == old(self).stepped(dir),
    {
        match dir {
            Dir::Up => {
                self.y += 1;
            },
            Dir::Down => {
                self.y -= 1;
            },
            Dir::Left => {
                self.x -= 1;
            },
            Dir::Right => {
                self.x += 1;
            },
        }
    }

    /// The square of the Euclidean distance to `other`, exactly.
    pub fn squared_distance(&self, other: Location) -> (d: u128)
        ensures
            d == self.distance_squared(other),
    {
        let dx: u128 = points_dist(self.x, other.x) as u128;
        let dy: u128 = points_dist(self.y, other.y) as u128;
        assert(dx * dx <= 0xffff_ffff * 0xffff_ffff && dx * dx == (self.x - other.x) * (self.x
            - other.x)) by (nonlinear_arith)
            requires
                dx == span(self.x as int, other.x as int),
                dx <= 0xffff_ffff,
        ;
        assert(dy * dy <= 0xffff_ffff * 0xffff_ffff && dy * dy == (self.y - other.y) * (self.y
            - other.y)) by (nonlinear_arith)
            requires
                dy == span(self.y as int, other.y as int),
                dy <= 0xffff_ffff,
        ;
        dx * dx + dy * dy
    }

    #[allow(dead_code)]
    pub fn check_neighbour(&self, other: Location) -> (near: bool)
        ensures
            near == self.neighbours(other),
    {
        !(points_dist(self.x, other.x) > 1 && points_dist(self.y, other.y) > 1)
    }

    /// Writes the location as "(x, y)".
    pub fn to_string(&self) -> (out: String)
        ensures
            out@ == self.text(),
    {
        let mut out = String::new();
        out.push('(');
        push_decimal(&mut out, self.x);
        out.push(',');
        out.push(' ');
        push_decimal(&mut out, self.y);
        out.push(')');
        assert(out@ =~= self.text());
        out
    }
}

/// Subtraction is componentwise. The differences must fit in `i32`.
impl core::ops::Sub for Location {
    type Output = Location;

    fn sub(self, rhs: Location) -> (diff: Location) {
        Location::new(self.x - rhs.x, self.y - rhs.y)
    }
}

impl vstd::std_specs::ops::SubSpecImpl for Location {
    open spec fn obeys_sub_spec() -> bool {
        true
    }

    open spec fn sub_req(self, rhs: Location) -> bool {
        Location::representable(self.offset_from(rhs))
    }

    open spec fn sub_spec(self, rhs: Location) -> Location {
        Location { x: (self.x - rhs.x) as i32, y: (self.y - rhs.y) as i32 }
    }
}

} // verus!
