//! Driving a match by commands: what one command from one player does to
//! the match, and what there is to tell the players afterwards.

use vstd::prelude::*;
use crate::game::{
    ChangeToPlayingError, CheckWinError, Game, GameAddShipError, GameView, GuessError, Phase, Player,
    StateOrOtherError,
};
use crate::location::Location;
use crate::ship::ShipDir;

verus! {

/// What a player can ask for.
#[derive(Clone, Copy, Debug, PartialEq, Eq)]
pub enum Command {
    /// Place the next vessel of the fleet from `loc` along `dir`.
    AddShip { loc: Location, dir: ShipDir },
    /// Guess at `loc` on the opponent's board.
    GuessPos { loc: Location },
}

/// What came of a command.
#[derive(Clone, Copy, Debug, PartialEq, Eq)]
pub enum Outcome {
    /// The command does not belong to the phase the match is in. Nothing
    /// changed.
    Ignored,
    /// A vessel was offered during setup. `placed` tells whether it was
    /// accepted, `begun` whether both fleets were then complete and play has
    /// begun.
    Placement {
        placed: Result<(), StateOrOtherError<GameAddShipError>>,
        begun: Result<(), ChangeToPlayingError>,
    },
    /// A guess was made during play. `hit` tells whether it was taken and
    /// what it found, `winner` what looking for a winner gave afterwards.
    Guess { hit: Result<bool, GuessError>, winner: Result<Option<Player>, CheckWinError> },
}

impl GameView {
    /// One command from `player`. During setup a vessel is offered to the
    /// player's board, and play begins as soon as both fleets are complete.
    /// During play a guess is taken if it is the player's turn, and a winner
    /// is looked for either way. A command of the other kind, or any command
    /// once the match is finished, is ignored. In neither phase can the
    /// results say that the match was in the wrong state.
    pub open spec fn step(self, player: Player, command: Command) -> (GameView, Outcome) {
        match (self.phase, command) {
            (Phase::Setup, Command::AddShip { loc, dir }) => {
                let (offered, placed) = self.add_ship(player, loc, dir);
                let (next, begun) = offered.change_to_playing();
                (next, Outcome::Placement { placed, begun })
            },
            (Phase::Active { .. }, Command::GuessPos { loc }) => {
                let (guessed, hit) = self.guess_position(player, loc);
                let (next, winner) = guessed.check_if_win();
                (next, Outcome::Guess { hit, winner })
            },
            _ => (self, Outcome::Ignored),
        }
    }

    /// A command leaves a well-formed match well formed and never takes it
    /// back to an earlier phase, and none of its results is a wrong state.
    pub proof fn lemma_step_keeps_wf(self, player: Player, command: Command)
        requires
            self.wf(),
        ensures
            self.step(player, command).0.wf(),
            self.step(player, command).0.phase.rank() >= self.phase.rank(),
            match self.step(player, command).1 {
                Outcome::Ignored => true,
                Outcome::Placement { placed, begun } => {
                    &&& placed != Err::<(), StateOrOtherError<GameAddShipError>>(
                        StateOrOtherError::WrongState,
                    )
                    &&& begun != Err::<(), ChangeToPlayingError>(ChangeToPlayingError::WrongState)
                },
                Outcome::Guess { hit, winner } => {
                    &&& hit != Err::<bool, GuessError>(GuessError::WrongState)
                    &&& winner is Ok
                },
            },
    {
        match (self.phase, command) {
            (Phase::Setup, Command::AddShip { loc, dir }) => {
                self.lemma_add_ship_keeps_wf(player, loc, dir);
                self.add_ship(player, loc, dir).0.lemma_play_keeps_wf(player, loc);
            },
            (Phase::Active { .. }, Command::GuessPos { loc }) => {
                self.lemma_play_keeps_wf(player, loc);
                self.guess_position(player, loc).0.lemma_play_keeps_wf(player, loc);
            },
            _ => {},
        }
    }
}

/// Carries out one command from `player`; see [`GameView::step`].
pub fn step(game: &mut Game, player: Player, command: Command) -> (outcome: Outcome)
    ensures
        (final(game)@, outcome) == old(game)@.step(player, command),
        old(game).wf() ==> final(game).wf(),
{
    match (game.phase(), command) {
        (Phase::Setup, Command::AddShip { loc, dir }) => {
            let placed = game.add_ship(player, loc, dir);
            let begun = game.change_to_playing();
            Outcome::Placement { placed, begun }
        },
        (Phase::Active { .. }, Command::GuessPos { loc }) => {
            let hit = game.guess_position(player, loc);
            let winner = game.check_if_win();
            Outcome::Guess { hit, winner }
        },
        _ => Outcome::Ignored,
    }
}

} // verus!
