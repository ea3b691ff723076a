//! The match: two boards, a phase, and the rules that move it from setting
//! up through play to its end.

use vstd::prelude::*;
use crate::grid::{AddShipError, Grid, GridView};
use crate::location::Location;
use crate::ship::{fits, offset, Ship, ShipDir, ShipView};

verus! {

/// One of the two players.
#[derive(Clone, Copy, Debug, PartialEq, Eq, Structural)]
pub enum Player {
    Player1,
    Player2,
}

/// The stage a match is in. Only during play is it anybody's turn.
#[derive(Clone, Copy, Debug, PartialEq, Eq, Structural)]
pub enum Phase {
    /// Both players are placing their fleets.
    Setup,
    /// The players guess in turn; `turn` guesses next.
    Active { turn: Player },
    /// A fleet was found destroyed. Nothing further happens.
    Finished,
}

/// Why a vessel could not be added to a player's fleet.
#[derive(Clone, Copy, Debug, PartialEq, Eq)]
pub enum GameAddShipError {
    /// The player's fleet is already complete.
    TooManyShips,
    /// The board refused the vessel.
    Other(AddShipError),
}

/// An error of an operation that is tied to a phase: either the match was
/// in another phase, or the operation failed for a reason of its own.
#[derive(Clone, Copy, Debug, PartialEq, Eq)]
pub enum StateOrOtherError<E> {
    WrongState,
    Other(E),
}

/// Why play could not begin.
#[derive(Clone, Copy, Debug, PartialEq, Eq)]
pub enum ChangeToPlayingError {
    WrongState,
    /// At least one fleet is not complete.
    NotEnoughShips,
}

/// Why a guess was not taken.
#[derive(Clone, Copy, Debug, PartialEq, Eq)]
pub enum GuessError {
    WrongState,
    /// It is the other player's turn.
    WrongPlayer,
}

/// Why no winner could be looked for.
#[derive(Clone, Copy, Debug, PartialEq, Eq)]
pub enum CheckWinError {
    WrongState,
}

/// A match between two players.
#[derive(Clone, Debug)]
pub struct Game {
    one: Grid,
    two: Grid,
    phase: Phase,
}

/// The mathematical content of a match.
pub struct GameView {
    pub one: GridView,
    pub two: GridView,
    pub phase: Phase,
}

impl View for Game {
    type V = GameView;

    closed spec fn view(&self) -> GameView {
        GameView { one: self.one@, two: self.two@, phase: self.phase }
    }
}

/// The number of vessels in a fleet.
pub const FLEET_SIZE: usize = 5;

/// The fleet each player places: the lengths of its vessels, in the order
/// in which they are placed.
pub open spec fn fleet() -> Seq<int> {
    seq![2, 3, 3, 4, 5]
}

/// How many of the first `len` coordinates from `start` along `dir` are
/// representable. The rest lie beyond the range of `i32`, and so off every
/// grid.
pub open spec fn reach(start: Location, dir: ShipDir, len: int) -> int {
    let room = match dir {
        ShipDir::Horz => i32::MAX - start.x + 1,
        ShipDir::Vert => i32::MAX - start.y + 1,
    };
    if len <= room {
        len
    } else {
        room
    }
}

impl Player {
    /// The other player.
    pub open spec fn opponent(self) -> Player {
        match self {
            Player::Player1 => Player::Player2,
            Player::Player2 => Player::Player1,
        }
    }

    /// The player's number, counting from one.
    pub open spec fn number(self) -> int {
        match self {
            Player::Player1 => 1,
            Player::Player2 => 2,
        }
    }

    /// The other player.
    pub fn other(&self) -> (p: Player)
        ensures
            p == self.opponent(),
    {
        match self {
            Player::Player1 => Player::Player2,
            Player::Player2 => Player::Player1,
        }
    }

    /// The player's number, counting from one.
    pub fn num(&self) -> (n: usize)
        ensures
            n == self.number(),
    {
        match self {
            Player::Player1 => 1,
            Player::Player2 => 2,
        }
    }

    /// Each player is the other's opponent, and nobody their own.
    pub proof fn lemma_opponent(self)
        ensures
            self.opponent() != self,
            self.opponent().opponent() == self,
    {
    }
}

impl Phase {
    /// The place of a phase in the course of a match.
    pub open spec fn rank(self) -> int {
        match self {
            Phase::Setup => 0,
            Phase::Active { .. } => 1,
            Phase::Finished => 2,
        }
    }
}

impl GameView {
    /// A match about to be set up on two empty boards of the given size.
    pub open spec fn start(size: int) -> GameView {
        GameView { one: GridView::empty(size), two: GridView::empty(size), phase: Phase::Setup }
    }

    /// The board of `player`.
    pub open spec fn grid(self, player: Player) -> GridView {
        match player {
            Player::Player1 => self.one,
            Player::Player2 => self.two,
        }
    }

    /// The match with `board` in place of the board of `player`.
    pub open spec fn with_grid(self, player: Player, board: GridView) -> GameView {
        match player {
            Player::Player1 => GameView { one: board, ..self },
            Player::Player2 => GameView { two: board, ..self },
        }
    }

    /// The length of the next vessel that `player` is to place, if the fleet
    /// is not complete.
    pub open spec fn next_length(self, player: Player) -> Option<int> {
        if self.grid(player).ships.len() < fleet().len() {
            Some(fleet()[self.grid(player).ships.len() as int])
        } else {
            None
        }
    }

    /// Placing the next vessel of `player` from `start` along `dir`. Only
    /// during setup, and only while the fleet is incomplete. The board then
    /// decides: an overlap is reported before a coordinate off the grid. A
    /// vessel that runs past the last representable coordinate is off the
    /// grid, unless the part before that overlaps. On any error the match is
    /// unchanged.
    pub open spec fn add_ship(self, player: Player, start: Location, dir: ShipDir) -> (
        GameView,
        Result<(), StateOrOtherError<GameAddShipError>>,
    ) {
        if self.phase != Phase::Setup {
            (self, Err(StateOrOtherError::WrongState))
        } else if self.next_length(player) is None {
            (self, Err(StateOrOtherError::Other(GameAddShipError::TooManyShips)))
        } else {
            let len = self.next_length(player)->Some_0;
            let part = ShipView::laid(start, dir, reach(start, dir, len));
            let (board, placed) = self.grid(player).place(part);
            match placed {
                Err(e) => (self, Err(StateOrOtherError::Other(GameAddShipError::Other(e)))),
                Ok(_) => if reach(start, dir, len) < len {
                    (
                        self,
                        Err(
                            StateOrOtherError::Other(
                                GameAddShipError::Other(AddShipError::ShipOutOfBounds),
                            ),
                        ),
                    )
                } else {
                    (self.with_grid(player, board), Ok(()))
                },
            }
        }
    }

    /// Beginning play: only from setup, and only with both fleets complete.
    /// Player one guesses first.
    pub open spec fn change_to_playing(self) -> (GameView, Result<(), ChangeToPlayingError>) {
        if self.phase != Phase::Setup {
            (self, Err(ChangeToPlayingError::WrongState))
        } else if self.one.ships.len() < fleet().len() || self.two.ships.len() < fleet().len() {
            (self, Err(ChangeToPlayingError::NotEnoughShips))
        } else {
            (GameView { phase: Phase::Active { turn: Player::Player1 }, ..self }, Ok(()))
        }
    }

    /// A guess by `player` at `c`: only during play and only in turn. The
    /// guess goes to the opponent's board, and the turn passes to the
    /// opponent whether it hit or missed.
    pub open spec fn guess_position(self, player: Player, c: Location) -> (
        GameView,
        Result<bool, GuessError>,
    ) {
        match self.phase {
            Phase::Active { turn } => if player != turn {
                (self, Err(GuessError::WrongPlayer))
            } else {
                let target = self.grid(player.opponent());
                (
                    GameView {
                        phase: Phase::Active { turn: player.opponent() },
                        ..self.with_grid(player.opponent(), target.shot(c))
                    },
                    Ok(target.occupies(c)),
                )
            },
            _ => (self, Err(GuessError::WrongState)),
        }
    }

    /// Looking for a winner: only during play. Player one's board is looked
    /// at first: if it is lost, player two has won and the match is finished.
    /// If player two's board is lost, player one has won, and the match stays
    /// in play.
    pub open spec fn check_if_win(self) -> (GameView, Result<Option<Player>, CheckWinError>) {
        match self.phase {
            Phase::Active { .. } => if self.one.lost() {
                (GameView { phase: Phase::Finished, ..self }, Ok(Some(Player::Player2)))
            } else if self.two.lost() {
                (self, Ok(Some(Player::Player1)))
            } else {
                (self, Ok(None))
            },
            _ => (self, Err(CheckWinError::WrongState)),
        }
    }

    /// Whether the vessels on `board` are the first of the fleet, in order
    /// and with their lengths.
    pub open spec fn follows_fleet(board: GridView) -> bool {
        &&& board.ships.len() <= fleet().len()
        &&& forall|i: int|
            0 <= i < board.ships.len() ==> (#[trigger] board.ships[i]).cells.len() == fleet()[i]
    }

    /// Whether no coordinate on `board` has been hit.
    pub open spec fn untouched(board: GridView) -> bool {
        forall|i: int, k: int|
            0 <= i < board.ships.len() && 0 <= k < board.ships[i].cells.len() ==> !(
            #[trigger] board.ships[i].cells[k]).hit
    }

    /// A match is well formed when both boards are, they have the same size,
    /// each holds the first vessels of the fleet, nothing is hit before play
    /// begins, and both fleets are complete once it has.
    pub open spec fn wf(self) -> bool {
        &&& self.one.wf()
        &&& self.two.wf()
        &&& self.one.size == self.two.size
        &&& GameView::follows_fleet(self.one)
        &&& GameView::follows_fleet(self.two)
        &&& self.phase == Phase::Setup ==> GameView::untouched(self.one) && GameView::untouched(
            self.two,
        )
        &&& self.phase != Phase::Setup ==> self.one.ships.len() == fleet().len()
            && self.two.ships.len() == fleet().len()
    }

    /// Adding a vessel leaves a well-formed match well formed.
    pub proof fn lemma_add_ship_keeps_wf(self, player: Player, start: Location, dir: ShipDir)
        requires
            self.wf(),
        ensures
            self.add_ship(player, start, dir).0.wf(),
    {
        let after = self.add_ship(player, start, dir).0;
        if self.add_ship(player, start, dir).1 is Ok {
            let board = self.grid(player);
            let len = self.next_length(player)->Some_0;
            let ship = ShipView::laid(start, dir, len);
            ShipView::lemma_laid(start, dir, len);
            board.lemma_place_keeps_wf(ship);
            let placed = board.place(ship).0;
            assert(placed.ships == board.ships.push(ship));
            assert(GameView::follows_fleet(placed));
            assert(GameView::untouched(placed)) by {
                assert forall|i: int, k: int|
                    0 <= i < placed.ships.len() && 0 <= k < placed.ships[i].cells.len() implies !(
                #[trigger] placed.ships[i].cells[k]).hit by {
                    if i < board.ships.len() {
                        assert(!board.ships[i].cells[k].hit);
                    }
                }
            }
        }
    }

    /// A vessel that is accepted is the next of the fleet: it has that
    /// vessel's length, its coordinates step one by one from `start` along
    /// `dir`, all of them on the board, and none is hit. It is appended to
    /// the player's board; the other board and the phase stay as they were.
    pub proof fn lemma_placed_vessel(self, player: Player, start: Location, dir: ShipDir)
        requires
            self.add_ship(player, start, dir).1 is Ok,
        ensures
            self.next_length(player) is Some,
            ({
                let len = self.next_length(player)->Some_0;
                let ship = ShipView::laid(start, dir, len);
                let after = self.add_ship(player, start, dir).0;
                &&& after.grid(player).ships == self.grid(player).ships.push(ship)
                &&& after.grid(player).size == self.grid(player).size
                &&& after.grid(player.opponent()) == self.grid(player.opponent())
                &&& after.phase == self.phase
                &&& ship.wf()
                &&& ship.cells.len() == len
                &&& forall|i: int|
                    0 <= i < len ==> {
                        &&& (#[trigger] ship.cells[i]).at.point() == offset(start, dir, i)
                        &&& self.grid(player).in_bounds(ship.cells[i].at)
                        &&& !self.grid(player).occupies(ship.cells[i].at)
                        &&& !ship.cells[i].hit
                    }
            }),
    {
        let len = self.next_length(player)->Some_0;
        let ship = ShipView::laid(start, dir, len);
        ShipView::lemma_laid(start, dir, len);
        assert forall|i: int| 0 <= i < len implies !self.grid(player).occupies(
            (#[trigger] ship.cells[i]).at,
        ) by {
            if self.grid(player).occupies(ship.cells[i].at) {
                assert(self.grid(player).overlaps(ship));
            }
        }
    }

    /// A guess moves no vessel on either board: every vessel keeps its
    /// coordinates, and each board its size and what it occupies.
    pub proof fn lemma_guess_keeps_vessels(self, player: Player, c: Location, whose: Player)
        ensures
            ({
                let before = self.grid(whose);
                let after = self.guess_position(player, c).0.grid(whose);
                &&& after.size == before.size
                &&& after.ships.len() == before.ships.len()
                &&& forall|i: int|
                    0 <= i < before.ships.len() ==> (#[trigger] after.ships[i]).coords()
                        == before.ships[i].coords()
                &&& after.occupied() == before.occupied()
                &&& forall|d: Location| after.occupies(d) == before.occupies(d)
            }),
    {
        self.grid(whose).lemma_shot_keeps_coords(c);
    }

    /// A guess at a coordinate that is already hit is a hit again, and
    /// leaves both boards as they were: only the turn passes on.
    pub proof fn lemma_guess_again(self, player: Player, c: Location)
        requires
            self.wf(),
            self.phase == (Phase::Active { turn: player }),
            self.grid(player.opponent()).is_hit(c),
        ensures
            self.guess_position(player, c) == (
                GameView { phase: Phase::Active { turn: player.opponent() }, ..self },
                Ok::<bool, GuessError>(true),
            ),
    {
        self.grid(player.opponent()).lemma_shot_again(c);
    }

    /// After a hit, the coordinate is hit on the opponent's board, so that
    /// guessing it again is covered by [`GameView::lemma_guess_again`].
    pub proof fn lemma_guess_hits(self, player: Player, c: Location, d: Location)
        requires
            self.phase == (Phase::Active { turn: player }),
        ensures
            ({
                let before = self.grid(player.opponent());
                let after = self.guess_position(player, c).0;
                &&& self.guess_position(player, c).1 == Ok::<bool, GuessError>(before.occupies(c))
                &&& after.grid(player.opponent()).is_hit(d) == (before.is_hit(d) || (d == c
                    && before.occupies(c)))
                &&& after.grid(player) == self.grid(player)
            }),
    {
        self.grid(player.opponent()).lemma_shot_hits(c, d);
    }

    /// The turn alternates strictly: a guess in turn is taken and passes the
    /// turn to the opponent, and the opponent's guess passes it back, whatever
    /// the guesses hit.
    pub proof fn lemma_turns_alternate(self, player: Player, first: Location, second: Location)
        requires
            self.phase == (Phase::Active { turn: player }),
        ensures
            self.guess_position(player, first).1 is Ok,
            self.guess_position(player, first).0.phase == (Phase::Active {
                turn: player.opponent(),
            }),
            self.guess_position(player, first).0.guess_position(player.opponent(), second).1 is Ok,
            self.guess_position(player, first).0.guess_position(
                player.opponent(),
                second,
            ).0.phase == (Phase::Active { turn: player }),
            self.guess_position(player, first).0.guess_position(player, second) == (
                self.guess_position(player, first).0,
                Err::<bool, GuessError>(GuessError::WrongPlayer),
            ),
    {
    }

    /// Play begins exactly when both fleets are complete: with a vessel
    /// missing on either board the attempt fails and changes nothing; with
    /// both fleets complete, player one is to guess first.
    pub proof fn lemma_begin_play(self)
        requires
            self.wf(),
            self.phase == Phase::Setup,
        ensures
            self.one.ships.len() < fleet().len() || self.two.ships.len() < fleet().len()
                ==> self.change_to_playing() == (
                self,
                Err::<(), ChangeToPlayingError>(ChangeToPlayingError::NotEnoughShips),
            ),
            self.change_to_playing().1 is Ok <==> self.one.ships.len() == fleet().len()
                && self.two.ships.len() == fleet().len(),
            self.change_to_playing().1 is Ok ==> self.change_to_playing().0 == (GameView {
                phase: Phase::Active { turn: Player::Player1 },
                ..self
            }),
    {
    }

    /// A player whose fleet is complete cannot place another vessel.
    pub proof fn lemma_fleet_complete(self, player: Player, start: Location, dir: ShipDir)
        requires
            self.phase == Phase::Setup,
            self.grid(player).ships.len() >= fleet().len(),
        ensures
            self.add_ship(player, start, dir) == (
                self,
                Err::<(), StateOrOtherError<GameAddShipError>>(
                    StateOrOtherError::Other(GameAddShipError::TooManyShips),
                ),
            ),
    {
    }

    /// No operation takes a match back to an earlier phase, and an operation
    /// that fails changes nothing at all.
    pub proof fn lemma_phase_advances(self, player: Player, start: Location, dir: ShipDir)
        ensures
            self.add_ship(player, start, dir).0.phase == self.phase,
            self.add_ship(player, start, dir).1 is Err ==> self.add_ship(player, start, dir).0
                == self,
            self.change_to_playing().0.phase.rank() >= self.phase.rank(),
            self.change_to_playing().1 is Err ==> self.change_to_playing().0 == self,
            self.guess_position(player, start).0.phase.rank() == self.phase.rank(),
            self.guess_position(player, start).1 is Err ==> self.guess_position(player, start).0
                == self,
            self.check_if_win().0.phase.rank() >= self.phase.rank(),
            self.check_if_win().1 is Err ==> self.check_if_win().0 == self,
    {
    }

    /// A winner is reported exactly when a fleet is destroyed: the winner's
    /// opponent has every vessel destroyed, and while no winner is reported
    /// each board has a vessel that is not.
    pub proof fn lemma_winner(self)
        requires
            self.phase is Active,
        ensures
            match self.check_if_win().1 {
                Ok(Some(p)) => forall|i: int|
                    0 <= i < self.grid(p.opponent()).ships.len() ==> (#[trigger] self.grid(
                        p.opponent(),
                    ).ships[i]).destroyed(),
                Ok(None) => {
                    &&& exists|i: int|
                        0 <= i < self.one.ships.len() && !(#[trigger] self.one.ships[i]).destroyed()
                    &&& exists|i: int|
                        0 <= i < self.two.ships.len() && !(#[trigger] self.two.ships[i]).destroyed()
                },
                Err(_) => false,
            },
    {
        self.one.lemma_lost_means_all_destroyed();
        self.two.lemma_lost_means_all_destroyed();
    }

    /// Beginning play, guessing and looking for a winner leave a well-formed
    /// match well formed.
    pub proof fn lemma_play_keeps_wf(self, player: Player, c: Location)
        requires
            self.wf(),
        ensures
            self.change_to_playing().0.wf(),
            self.guess_position(player, c).0.wf(),
            self.check_if_win().0.wf(),
    {
        self.grid(player.opponent()).lemma_shot_keeps_wf(c);
        self.grid(player.opponent()).lemma_shot_keeps_coords(c);
        let after = self.guess_position(player, c).0;
        if self.guess_position(player, c).1 is Ok {
            let before = self.grid(player.opponent());
            let board = after.grid(player.opponent());
            assert forall|i: int| 0 <= i < board.ships.len() implies (#[trigger] board.ships[i]).cells.len()
                == fleet()[i] by {
                before.ships[i].lemma_marked_keeps_coords(c);
                assert(before.ships[i].cells.len() == fleet()[i]);
            }
        }
    }
}

/// The length of the vessel that is placed after `count` others, if the
/// fleet has one more.
fn ship_length(count: usize) -> (len: Option<i32>)
    ensures
        len == if count < fleet().len() {
            Some(fleet()[count as int] as i32)
        } else {
            None::<i32>
        },
{
    if count == 0 {
        Some(2)
    } else if count == 1 || count == 2 {
        Some(3)
    } else if count == 3 {
        Some(4)
    } else if count == 4 {
        Some(5)
    } else {
        None
    }
}

/// How many of the first `len` coordinates from `start` along `dir` are
/// representable.
fn reach_of(start: Location, dir: ShipDir, len: i32) -> (n: i32)
    requires
        len >= 1,
    ensures
        n == reach(start, dir, len as int),
        1 <= n <= len,
        fits(start, dir, n as int),
{
    let from = match dir {
        ShipDir::Horz => start.x,
        ShipDir::Vert => start.y,
    };
    if from <= i32::MAX - (len - 1) {
        len
    } else {
        i32::MAX - from + 1
    }
}

impl Game {
    /// Whether the match's invariant holds: see [`GameView::wf`].
    pub open spec fn wf(&self) -> bool {
        self@.wf()
    }

    /// A match about to be set up on two empty boards of the given size.
    pub fn new(size: i32) -> (game: Self)
        ensures
            game@ == GameView::start(size as int),
            game.wf(),
    {
        Self { one: Grid::new(size), two: Grid::new(size), phase: Phase::Setup }
    }

    /// The phase the match is in.
    pub fn phase(&self) -> (phase: Phase)
        ensures
            phase == self@.phase,
    {
        self.phase
    }

    /// The board of `player`, in any phase.
    pub fn get_grid(&self, player: Player) -> (grid: &Grid)
        ensures
            grid@ == self@.grid(player),
    {
        match player {
            Player::Player1 => &self.one,
            Player::Player2 => &self.two,
        }
    }

    /// Places the next vessel of `player`'s fleet from `start_point` along
    /// `ship_dir`; see [`GameView::add_ship`].
    pub fn add_ship(&mut self, player: Player, start_point: Location, ship_dir: ShipDir) -> (placed:
        Result<(), StateOrOtherError<GameAddShipError>>)
        ensures
            (final(self)@, placed) == old(self)@.add_ship(player, start_point, ship_dir),
            old(self).wf() ==> final(self).wf(),
    {
        match self.phase {
            Phase::Setup => {
                let count = self.get_grid(player).ships().len();
                let len = match ship_length(count) {
                    Some(len) => len,
                    None => {
                        return Err(StateOrOtherError::Other(GameAddShipError::TooManyShips));
                    },
                };
                let within = reach_of(start_point, ship_dir, len);
                let ship = Ship::new(start_point, ship_dir, within);
                if within < len {
                    if self.get_grid(player).overlaps(&ship) {
                        Err(
                            StateOrOtherError::Other(
                                GameAddShipError::Other(AddShipError::ShipOverlap),
                            ),
                        )
                    } else {
                        Err(
                            StateOrOtherError::Other(
                                GameAddShipError::Other(AddShipError::ShipOutOfBounds),
                            ),
                        )
                    }
                } else {
                    let placed = match player {
                        Player::Player1 => self.one.add_ship(ship),
                        Player::Player2 => self.two.add_ship(ship),
                    };
                    proof {
                        if old(self).wf() {
                            old(self)@.lemma_add_ship_keeps_wf(player, start_point, ship_dir);
                        }
                    }
                    match placed {
                        Ok(_) => Ok(()),
                        Err(e) => Err(StateOrOtherError::Other(GameAddShipError::Other(e))),
                    }
                }
            },
            _ => Err(StateOrOtherError::WrongState),
        }
    }

    /// Begins play; see [`GameView::change_to_playing`].
    pub fn change_to_playing(&mut self) -> (begun: Result<(), ChangeToPlayingError>)
        ensures
            (final(self)@, begun) == old(self)@.change_to_playing(),
            old(self).wf() ==> final(self).wf(),
    {
        match self.phase {
            Phase::Setup => {
                assert(fleet().len() == FLEET_SIZE);
                if self.one.ships().len() < FLEET_SIZE || self.two.ships().len() < FLEET_SIZE {
                    return Err(ChangeToPlayingError::NotEnoughShips);
                }
                self.phase = Phase::Active { turn: Player::Player1 };
                Ok(())
            },
            _ => Err(ChangeToPlayingError::WrongState),
        }
    }

    /// Takes a guess by `player` at `coords` and says whether it hit; see
    /// [`GameView::guess_position`].
    pub fn guess_position(&mut self, player: Player, coords: Location) -> (hit: Result<
        bool,
        GuessError,
    >)
        ensures
            (final(self)@, hit) == old(self)@.guess_position(player, coords),
            old(self).wf() ==> final(self).wf(),
    {
        match self.phase {
            Phase::Active { turn } => {
                if player != turn {
                    return Err(GuessError::WrongPlayer);
                }
                let result = match player {
                    Player::Player1 => self.two.guess_grid(coords),
                    Player::Player2 => self.one.guess_grid(coords),
                };
                self.phase = Phase::Active { turn: player.other() };
                Ok(result)
            },
            _ => Err(GuessError::WrongState),
        }
    }

    /// Looks for a winner; see [`GameView::check_if_win`].
    pub fn check_if_win(&mut self) -> (winner: Result<Option<Player>, CheckWinError>)
        ensures
            (final(self)@, winner) == old(self)@.check_if_win(),
            old(self).wf() ==> final(self).wf(),
    {
        match self.phase {
            Phase::Active { .. } => {
                if self.one.check_loss() {
                    self.phase = Phase::Finished;
                    Ok(Some(Player::Player2))
                } else if self.two.check_loss() {
                    Ok(Some(Player::Player1))
                } else {
                    Ok(None)
                }
            },
            _ => Err(CheckWinError::WrongState),
        }
    }
}

} // verus!
