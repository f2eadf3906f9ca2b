use challenges::conway::{Cell, Game, SwitchOptions};
use challenges::pattern::copperhead;
use challenges::tictactoe as ttt;

#[test]
fn dead_and_live_cell_colors() {
    let dead = Cell { state: None, cycles_alive: 3 };
    assert_eq!(dead.color(), "hsl(0, 0%, 100%)");
    let newborn = Cell { state: Some(()), cycles_alive: 0 };
    assert_eq!(newborn.color(), "hsl(210, 100%, 0%)");
    let middle_aged = Cell { state: Some(()), cycles_alive: 5 };
    assert_eq!(middle_aged.color(), "hsl(210, 100%, 50%)");
    let ancient = Cell { state: Some(()), cycles_alive: 400 };
    assert_eq!(ancient.color(), "hsl(210, 100%, 100%)");
}

#[test]
fn empty_board_is_all_dead() {
    let g = Game::empty(3, 4);
    assert_eq!(g.state.len(), 3);
    assert_eq!(g.state[0].len(), 4);
    assert_eq!(g.cycles, 0);
    assert_eq!(g.alive_cells, 0);
    for row in &g.state {
        for cell in row {
            assert!(cell.state.is_none());
        }
    }
}

#[test]
fn flip_toggles_and_counts() {
    let mut g = Game::empty(2, 3);
    let switch = SwitchOptions { i: 0, j: 2 };
    g.flip(switch.i, switch.j);
    assert!(g.state[0][2].state.is_some());
    assert_eq!(g.alive_cells, 1);
    g.flip(0, 2);
    assert!(g.state[0][2].state.is_none());
    assert_eq!(g.alive_cells, 0);
}

#[test]
fn flip_never_counts_below_zero() {
    // A live cell in a game whose counter never saw it: flipping it
    // off leaves the counter at zero instead of wrapping around.
    let mut g = Game {
        state: vec![vec![Cell { state: Some(()), cycles_alive: 0 }]],
        cycles: 0,
        alive_cells: 0,
    };
    g.flip(0, 0);
    assert!(g.state[0][0].state.is_none());
    assert_eq!(g.alive_cells, 0);
}

#[test]
fn lone_cell_dies_out() {
    let mut g = Game::empty(5, 5);
    g.flip(2, 2);
    let next = g.next_cycle();
    assert_eq!(next.cycles, 1);
    assert_eq!(next.alive_cells, 0);
    for row in &next.state {
        for cell in row {
            assert!(cell.state.is_none());
        }
    }
}

#[test]
fn side_by_side_pair_holds_still() {
    // Each of the two cells sees a block count of two (itself plus
    // its partner) and is carried over unchanged; no dead cell sees
    // exactly three.
    let mut g = Game::empty(5, 5);
    g.flip(1, 1);
    g.flip(1, 2);
    let next = g.next_cycle();
    assert_eq!(next.alive_cells, 2);
    assert!(next.state[1][1].state.is_some());
    assert!(next.state[1][2].state.is_some());
    assert_eq!(next.state[1][1].cycles_alive, 0);
    for (i, row) in next.state.iter().enumerate() {
        for (j, cell) in row.iter().enumerate() {
            if !((i, j) == (1, 1) || (i, j) == (1, 2)) {
                assert!(cell.state.is_none());
            }
        }
    }
}

#[test]
fn copperhead_has_its_twenty_eight_cells() {
    let p = copperhead();
    assert_eq!(p.len(), 28);
    assert_eq!(p[0], (0, 5));
    assert_eq!(p[27], (7, 8));
    assert!(p.contains(&(3, 0)));
    assert!(p.contains(&(4, 10)));
}

#[test]
fn seeded_board_carries_the_pattern() {
    let g = Game::initialise_random(20, 24);
    assert_eq!(g.state.len(), 20);
    assert_eq!(g.state[0].len(), 24);
    assert_eq!(g.cycles, 0);
    // The seeding never touches the live-cell counter.
    assert_eq!(g.alive_cells, 0);
    let mut live: usize = 0;
    for row in &g.state {
        for cell in row {
            if cell.state.is_some() {
                live += 1;
            }
        }
    }
    assert_eq!(live, 28);
    // Anchored at the center: (10 + 0, 12 + 5) is the first seed cell.
    assert!(g.state[10][17].state.is_some());
    assert!(g.state[0][0].state.is_none());
}

#[test]
fn reset_swaps_the_dimensions() {
    let mut g = Game::empty(4, 6);
    g.reset();
    assert_eq!(g.state.len(), 6);
    assert_eq!(g.state[0].len(), 4);
}

#[test]
fn the_drawn_board_has_walls_and_rules() {
    let mut g = ttt::Game::new(ttt::BoardOpt::ThreeByThree);
    let divider = "\n --- --- ---\n";
    let empty_row = "|   |   |   |";
    let expected = format!(
        "{divider}{empty_row}{divider}{empty_row}{divider}{empty_row}{divider}"
    );
    assert_eq!(g.render(), expected);
    g.apply(ttt::Placement(0, 0)).unwrap();
    let first_row = "| X |   |   |";
    let after_move = format!(
        "{divider}{first_row}{divider}{empty_row}{divider}{empty_row}{divider}"
    );
    assert_eq!(g.render(), after_move);
}

#[test]
fn board_options_name_their_field_counts() {
    assert_eq!(ttt::BoardOpt::ThreeByThree.dim(), 9);
    assert_eq!(ttt::BoardOpt::FourByFour.dim(), 16);
}

#[test]
fn fresh_board_is_empty_and_crosses_move() {
    let g = ttt::Game::new(ttt::BoardOpt::ThreeByThree);
    assert_eq!(g.state.len(), 9);
    assert!(g.state.iter().all(|c| c.is_none()));
    assert!(matches!(g.turn, ttt::Player::Cross));
    assert!(g.current_state().is_none());
}

#[test]
fn flat_indexing_is_row_major() {
    let g3 = ttt::Game::new(ttt::BoardOpt::ThreeByThree);
    assert_eq!(g3.to_1d_index(2, 1), 7);
    let g4 = ttt::Game::new(ttt::BoardOpt::FourByFour);
    assert_eq!(g4.to_1d_index(2, 1), 9);
}

#[test]
fn taken_field_is_refused() {
    let mut g = ttt::Game::new(ttt::BoardOpt::ThreeByThree);
    assert!(matches!(g.apply(ttt::Placement(0, 0)), Ok(ttt::State::Running)));
    assert!(matches!(g.turn, ttt::Player::Circle));
    assert!(matches!(
        g.apply(ttt::Placement(0, 0)),
        Err(ttt::GameError::FieldNotFree)
    ));
}

#[test]
fn a_full_row_wins_the_game() {
    let mut g = ttt::Game::new(ttt::BoardOpt::ThreeByThree);
    assert!(matches!(g.apply(ttt::Placement(0, 0)), Ok(ttt::State::Running)));
    assert!(matches!(g.apply(ttt::Placement(1, 0)), Ok(ttt::State::Running)));
    assert!(matches!(g.apply(ttt::Placement(0, 1)), Ok(ttt::State::Running)));
    assert!(matches!(g.apply(ttt::Placement(1, 1)), Ok(ttt::State::Running)));
    let end = g.apply(ttt::Placement(0, 2));
    assert!(matches!(end, Ok(ttt::State::Winner(ttt::Player::Cross))));
    // The winning move does not hand the turn over.
    assert!(matches!(g.turn, ttt::Player::Cross));
}

#[test]
fn a_full_column_wins_the_game() {
    let mut g = ttt::Game::new(ttt::BoardOpt::ThreeByThree);
    assert!(matches!(g.apply(ttt::Placement(0, 1)), Ok(ttt::State::Running)));
    assert!(matches!(g.apply(ttt::Placement(0, 0)), Ok(ttt::State::Running)));
    assert!(matches!(g.apply(ttt::Placement(1, 1)), Ok(ttt::State::Running)));
    assert!(matches!(g.apply(ttt::Placement(1, 0)), Ok(ttt::State::Running)));
    assert!(matches!(g.apply(ttt::Placement(2, 2)), Ok(ttt::State::Running)));
    let end = g.apply(ttt::Placement(2, 0));
    assert!(matches!(end, Ok(ttt::State::Winner(ttt::Player::Circle))));
}

#[test]
fn the_diagonal_wins_the_game() {
    let mut g = ttt::Game::new(ttt::BoardOpt::ThreeByThree);
    assert!(matches!(g.apply(ttt::Placement(0, 0)), Ok(ttt::State::Running)));
    assert!(matches!(g.apply(ttt::Placement(0, 1)), Ok(ttt::State::Running)));
    assert!(matches!(g.apply(ttt::Placement(1, 1)), Ok(ttt::State::Running)));
    assert!(matches!(g.apply(ttt::Placement(0, 2)), Ok(ttt::State::Running)));
    let end = g.apply(ttt::Placement(2, 2));
    assert!(matches!(end, Ok(ttt::State::Winner(ttt::Player::Cross))));
}
