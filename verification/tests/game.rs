use battleship::game::{
    ChangeToPlayingError, CheckWinError, Game, GameAddShipError, GuessError, Phase, Player,
    StateOrOtherError,
};
use battleship::grid::AddShipError;
use battleship::location::Location;
use battleship::ship::ShipDir;

const FLEET: [i32; 5] = [2, 3, 3, 4, 5];

fn place_rows(game: &mut Game, player: Player) {
    for y in 0..5 {
        game.add_ship(player, Location::new(0, y), ShipDir::Horz).unwrap();
    }
}

fn place_columns(game: &mut Game, player: Player) {
    for x in 0..5 {
        game.add_ship(player, Location::new(x, 0), ShipDir::Vert).unwrap();
    }
}

fn in_play() -> Game {
    let mut game = Game::new(10);
    place_rows(&mut game, Player::Player1);
    place_columns(&mut game, Player::Player2);
    game.change_to_playing().unwrap();
    game
}

#[test]
fn players_are_each_other_s_opponents() {
    assert_eq!(Player::Player1.other(), Player::Player2);
    assert_eq!(Player::Player2.other(), Player::Player1);
    assert_eq!(Player::Player1.other().other(), Player::Player1);
    assert_eq!(Player::Player1.num(), 1);
    assert_eq!(Player::Player2.num(), 2);
}

#[test]
fn new_game_is_in_setup_with_empty_boards() {
    let game = Game::new(10);
    assert_eq!(game.phase(), Phase::Setup);
    for player in [Player::Player1, Player::Player2] {
        assert_eq!(game.get_grid(player).size(), 10);
        assert!(game.get_grid(player).ships().is_empty());
    }
}

#[test]
fn vessels_are_placed_in_fleet_order() {
    let mut game = Game::new(10);
    for (i, len) in FLEET.iter().enumerate() {
        assert!(game.add_ship(Player::Player2, Location::new(i as i32, 2), ShipDir::Vert).is_ok());
        let ships = game.get_grid(Player::Player2).ships();
        assert_eq!(ships.len(), i + 1);
        let coords = ships[i].get_coords();
        assert_eq!(coords.len(), *len as usize);
        for (k, c) in coords.iter().enumerate() {
            assert_eq!(*c, Location::new(i as i32, 2 + k as i32));
        }
        assert!(ships[i].get_found().is_empty());
    }
    assert!(game.get_grid(Player::Player1).ships().is_empty());
    assert_eq!(game.phase(), Phase::Setup);
}

#[test]
fn sixth_vessel_is_refused() {
    let mut game = Game::new(10);
    place_rows(&mut game, Player::Player1);
    let before = game.get_grid(Player::Player1).clone();
    assert_eq!(
        game.add_ship(Player::Player1, Location::new(0, 7), ShipDir::Horz),
        Err(StateOrOtherError::Other(GameAddShipError::TooManyShips))
    );
    assert_eq!(*game.get_grid(Player::Player1), before);
    assert_eq!(game.get_grid(Player::Player1).ships().len(), 5);
    assert!(game.add_ship(Player::Player2, Location::new(0, 7), ShipDir::Horz).is_ok());
}

#[test]
fn board_errors_are_passed_on() {
    let mut game = Game::new(10);
    game.add_ship(Player::Player1, Location::new(3, 3), ShipDir::Horz).unwrap();
    assert_eq!(
        game.add_ship(Player::Player1, Location::new(4, 2), ShipDir::Vert),
        Err(StateOrOtherError::Other(GameAddShipError::Other(AddShipError::ShipOverlap)))
    );
    assert_eq!(
        game.add_ship(Player::Player1, Location::new(8, 0), ShipDir::Horz),
        Err(StateOrOtherError::Other(GameAddShipError::Other(AddShipError::ShipOutOfBounds)))
    );
    assert_eq!(
        game.add_ship(Player::Player1, Location::new(4, 1), ShipDir::Vert),
        Err(StateOrOtherError::Other(GameAddShipError::Other(AddShipError::ShipOverlap)))
    );
    assert_eq!(game.get_grid(Player::Player1).ships().len(), 1);
    assert!(game.add_ship(Player::Player2, Location::new(4, 2), ShipDir::Vert).is_ok());
}

#[test]
fn vessel_past_the_last_coordinate_is_off_the_grid() {
    let mut game = Game::new(10);
    for start in [
        Location::new(i32::MAX, 0),
        Location::new(i32::MAX - 1, i32::MAX),
        Location::new(i32::MIN, 3),
    ] {
        assert_eq!(
            game.add_ship(Player::Player1, start, ShipDir::Horz),
            Err(StateOrOtherError::Other(GameAddShipError::Other(AddShipError::ShipOutOfBounds)))
        );
    }
    assert_eq!(
        game.add_ship(Player::Player1, Location::new(0, i32::MAX), ShipDir::Vert),
        Err(StateOrOtherError::Other(GameAddShipError::Other(AddShipError::ShipOutOfBounds)))
    );
    assert!(game.get_grid(Player::Player1).ships().is_empty());
}

#[test]
fn overlap_comes_first_on_the_largest_board() {
    let mut game = Game::new(i32::MAX);
    let corner = Location::new(i32::MAX - 2, 0);
    assert!(game.add_ship(Player::Player1, corner, ShipDir::Horz).is_ok());
    assert_eq!(
        game.add_ship(Player::Player1, Location::new(i32::MAX - 1, 0), ShipDir::Horz),
        Err(StateOrOtherError::Other(GameAddShipError::Other(AddShipError::ShipOverlap)))
    );
    assert_eq!(
        game.add_ship(Player::Player1, Location::new(i32::MAX - 1, 1), ShipDir::Horz),
        Err(StateOrOtherError::Other(GameAddShipError::Other(AddShipError::ShipOutOfBounds)))
    );
}

#[test]
fn play_does_not_begin_with_an_incomplete_fleet() {
    let mut game = Game::new(10);
    assert_eq!(game.change_to_playing(), Err(ChangeToPlayingError::NotEnoughShips));
    place_rows(&mut game, Player::Player1);
    assert_eq!(game.change_to_playing(), Err(ChangeToPlayingError::NotEnoughShips));
    for x in 0..4 {
        game.add_ship(Player::Player2, Location::new(x, 0), ShipDir::Vert).unwrap();
        assert_eq!(game.change_to_playing(), Err(ChangeToPlayingError::NotEnoughShips));
        assert_eq!(game.phase(), Phase::Setup);
    }
    game.add_ship(Player::Player2, Location::new(4, 0), ShipDir::Vert).unwrap();
    assert_eq!(game.change_to_playing(), Ok(()));
    assert_eq!(game.phase(), Phase::Active { turn: Player::Player1 });
    assert_eq!(game.get_grid(Player::Player1).ships().len(), 5);
    assert_eq!(game.get_grid(Player::Player2).ships().len(), 5);
}

#[test]
fn play_does_not_begin_when_only_player_two_is_ready() {
    let mut game = Game::new(10);
    place_rows(&mut game, Player::Player2);
    assert_eq!(game.change_to_playing(), Err(ChangeToPlayingError::NotEnoughShips));
    assert_eq!(game.phase(), Phase::Setup);
}

#[test]
fn setup_operations_fail_during_play() {
    let mut game = in_play();
    let one = game.get_grid(Player::Player1).clone();
    assert_eq!(
        game.add_ship(Player::Player1, Location::new(0, 7), ShipDir::Horz),
        Err(StateOrOtherError::WrongState)
    );
    assert_eq!(game.change_to_playing(), Err(ChangeToPlayingError::WrongState));
    assert_eq!(game.phase(), Phase::Active { turn: Player::Player1 });
    assert_eq!(*game.get_grid(Player::Player1), one);
}

#[test]
fn play_operations_fail_during_setup() {
    let mut game = Game::new(10);
    assert_eq!(
        game.guess_position(Player::Player1, Location::new(0, 0)),
        Err(GuessError::WrongState)
    );
    assert_eq!(game.check_if_win(), Err(CheckWinError::WrongState));
    place_rows(&mut game, Player::Player1);
    place_columns(&mut game, Player::Player2);
    assert_eq!(
        game.guess_position(Player::Player1, Location::new(0, 0)),
        Err(GuessError::WrongState)
    );
    assert_eq!(game.check_if_win(), Err(CheckWinError::WrongState));
    assert_eq!(game.phase(), Phase::Setup);
    assert!(game.get_grid(Player::Player2).get_all_found().is_empty());
}

#[test]
fn turn_alternates_whatever_the_guess_finds() {
    let mut game = in_play();
    assert_eq!(game.phase(), Phase::Active { turn: Player::Player1 });
    assert_eq!(game.guess_position(Player::Player1, Location::new(0, 0)), Ok(true));
    assert_eq!(game.phase(), Phase::Active { turn: Player::Player2 });
    assert_eq!(game.guess_position(Player::Player2, Location::new(9, 9)), Ok(false));
    assert_eq!(game.phase(), Phase::Active { turn: Player::Player1 });
    assert_eq!(game.guess_position(Player::Player1, Location::new(9, 9)), Ok(false));
    assert_eq!(game.phase(), Phase::Active { turn: Player::Player2 });
    assert_eq!(game.guess_position(Player::Player2, Location::new(0, 0)), Ok(true));
    assert_eq!(game.phase(), Phase::Active { turn: Player::Player1 });
}

#[test]
fn guess_goes_to_the_opponent_s_board() {
    let mut game = in_play();
    assert_eq!(game.guess_position(Player::Player1, Location::new(4, 1)), Ok(true));
    assert_eq!(
        game.get_grid(Player::Player2).get_all_found(),
        vec![Location::new(4, 1)]
    );
    assert!(game.get_grid(Player::Player1).get_all_found().is_empty());
    assert_eq!(game.guess_position(Player::Player2, Location::new(4, 1)), Ok(false));
    assert_eq!(game.guess_position(Player::Player1, Location::new(7, 7)), Ok(false));
    assert_eq!(game.guess_position(Player::Player2, Location::new(1, 4)), Ok(true));
    assert_eq!(
        game.get_grid(Player::Player1).get_all_found(),
        vec![Location::new(1, 4)]
    );
    assert_eq!(
        game.get_grid(Player::Player2).get_all_found(),
        vec![Location::new(4, 1)]
    );
}

#[test]
fn guess_out_of_turn_changes_nothing() {
    let mut game = in_play();
    let one = game.get_grid(Player::Player1).clone();
    let two = game.get_grid(Player::Player2).clone();
    assert_eq!(
        game.guess_position(Player::Player2, Location::new(0, 0)),
        Err(GuessError::WrongPlayer)
    );
    assert_eq!(game.phase(), Phase::Active { turn: Player::Player1 });
    assert_eq!(*game.get_grid(Player::Player1), one);
    assert_eq!(*game.get_grid(Player::Player2), two);
    assert_eq!(game.guess_position(Player::Player1, Location::new(0, 0)), Ok(true));
    assert_eq!(
        game.guess_position(Player::Player1, Location::new(0, 1)),
        Err(GuessError::WrongPlayer)
    );
    assert_eq!(game.phase(), Phase::Active { turn: Player::Player2 });
    assert_eq!(
        game.get_grid(Player::Player2).get_all_found(),
        vec![Location::new(0, 0)]
    );
}

#[test]
fn guess_at_a_hit_coordinate_is_a_hit_again() {
    let mut game = in_play();
    assert_eq!(game.guess_position(Player::Player1, Location::new(2, 1)), Ok(true));
    let two = game.get_grid(Player::Player2).clone();
    for _ in 0..3 {
        assert_eq!(game.guess_position(Player::Player2, Location::new(9, 9)), Ok(false));
        assert_eq!(game.guess_position(Player::Player1, Location::new(2, 1)), Ok(true));
        assert_eq!(*game.get_grid(Player::Player2), two);
    }
    assert_eq!(
        game.get_grid(Player::Player2).get_all_found(),
        vec![Location::new(2, 1)]
    );
}

#[test]
fn no_winner_while_both_fleets_float() {
    let mut game = in_play();
    assert_eq!(game.check_if_win(), Ok(None));
    assert_eq!(game.guess_position(Player::Player1, Location::new(0, 0)), Ok(true));
    assert_eq!(game.check_if_win(), Ok(None));
    assert_eq!(game.phase(), Phase::Active { turn: Player::Player2 });
}

#[test]
fn test_cmd_game() {
    let mut game = Game::new(10);
    for y in 1..=5 {
        game.add_ship(Player::Player1, Location { x: 1 - 1, y: y - 1 }, ShipDir::Horz).unwrap();
    }
    for x in 1..=5 {
        game.add_ship(Player::Player2, Location { x: x - 1, y: 1 - 1 }, ShipDir::Vert).unwrap();
    }
    game.change_to_playing().unwrap();

    let mut winner = None;
    for i in 1..=5 {
        for j in 1..=[2, 3, 3, 4, 5][i - 1] {
            assert_eq!(winner, None);
            let at = Location { x: i as i32 - 1, y: j - 1 };
            assert_eq!(game.guess_position(Player::Player1, at), Ok(true));
            winner = game.check_if_win().unwrap();
            if winner.is_some() {
                break;
            }
            let at = Location { x: 0 - 1, y: 0 - 1 };
            assert_eq!(game.guess_position(Player::Player2, at), Ok(false));
            winner = game.check_if_win().unwrap();
        }
    }
    assert_eq!(winner, Some(Player::Player1));
}

#[test]
fn player_one_wins_by_sinking_every_vessel() {
    let mut game = in_play();
    let targets = game.get_grid(Player::Player2).get_all();
    assert_eq!(targets.len(), 17);
    for (i, at) in targets.iter().enumerate() {
        assert_eq!(game.check_if_win(), Ok(None));
        assert_eq!(game.guess_position(Player::Player1, *at), Ok(true));
        if i + 1 < targets.len() {
            assert_eq!(game.check_if_win(), Ok(None));
            assert_eq!(game.guess_position(Player::Player2, Location::new(9, 9)), Ok(false));
        }
    }
    assert!(game.get_grid(Player::Player2).check_loss());
    assert_eq!(game.check_if_win(), Ok(Some(Player::Player1)));
}

#[test]
fn player_one_s_win_leaves_the_match_in_play() {
    let mut game = in_play();
    let targets = game.get_grid(Player::Player2).get_all();
    for at in targets {
        assert_eq!(game.guess_position(Player::Player1, at), Ok(true));
        if !game.get_grid(Player::Player2).check_loss() {
            assert_eq!(game.guess_position(Player::Player2, Location::new(9, 9)), Ok(false));
        }
    }
    assert_eq!(game.check_if_win(), Ok(Some(Player::Player1)));
    assert_eq!(game.phase(), Phase::Active { turn: Player::Player2 });
    assert_eq!(game.check_if_win(), Ok(Some(Player::Player1)));
    assert_eq!(game.guess_position(Player::Player2, Location::new(0, 0)), Ok(true));
}

#[test]
fn player_two_s_win_finishes_the_match() {
    let mut game = in_play();
    let targets = game.get_grid(Player::Player1).get_all();
    for at in targets {
        assert_eq!(game.check_if_win(), Ok(None));
        assert_eq!(game.guess_position(Player::Player1, Location::new(9, 9)), Ok(false));
        assert_eq!(game.guess_position(Player::Player2, at), Ok(true));
    }
    assert_eq!(game.check_if_win(), Ok(Some(Player::Player2)));
    assert_eq!(game.phase(), Phase::Finished);
}

#[test]
fn player_one_s_board_is_looked_at_first() {
    let mut game = in_play();
    let ones = game.get_grid(Player::Player1).get_all();
    let twos = game.get_grid(Player::Player2).get_all();
    for (a, b) in twos.iter().zip(ones.iter()) {
        assert_eq!(game.guess_position(Player::Player1, *a), Ok(true));
        assert_eq!(game.guess_position(Player::Player2, *b), Ok(true));
    }
    assert!(game.get_grid(Player::Player1).check_loss());
    assert!(game.get_grid(Player::Player2).check_loss());
    assert_eq!(game.check_if_win(), Ok(Some(Player::Player2)));
    assert_eq!(game.phase(), Phase::Finished);
}

#[test]
fn nothing_happens_once_the_match_is_finished() {
    let mut game = in_play();
    let targets = game.get_grid(Player::Player1).get_all();
    for at in targets {
        assert_eq!(game.guess_position(Player::Player1, Location::new(9, 9)), Ok(false));
        assert_eq!(game.guess_position(Player::Player2, at), Ok(true));
    }
    assert_eq!(game.check_if_win(), Ok(Some(Player::Player2)));
    let one = game.get_grid(Player::Player1).clone();
    let two = game.get_grid(Player::Player2).clone();
    assert_eq!(
        game.add_ship(Player::Player1, Location::new(0, 7), ShipDir::Horz),
        Err(StateOrOtherError::WrongState)
    );
    assert_eq!(game.change_to_playing(), Err(ChangeToPlayingError::WrongState));
    assert_eq!(
        game.guess_position(Player::Player1, Location::new(0, 0)),
        Err(GuessError::WrongState)
    );
    assert_eq!(
        game.guess_position(Player::Player2, Location::new(0, 0)),
        Err(GuessError::WrongState)
    );
    assert_eq!(game.check_if_win(), Err(CheckWinError::WrongState));
    assert_eq!(game.phase(), Phase::Finished);
    assert_eq!(*game.get_grid(Player::Player1), one);
    assert_eq!(*game.get_grid(Player::Player2), two);
}
