use rubix_cube::{Colour, CubeError, RubixCube};

fn colour_index(c: Colour) -> usize {
    match c {
        Colour::White => 0,
        Colour::Yellow => 1,
        Colour::Red => 2,
        Colour::Green => 3,
        Colour::Orange => 4,
        Colour::Blue => 5,
    }
}

fn colour_counts(cube: &RubixCube) -> [u32; 6] {
    let mut counts = [0u32; 6];
    for face in cube.get_faces().iter() {
        for &c in face.iter() {
            counts[colour_index(c)] += 1;
        }
    }
    counts
}

#[test]
fn solved_cube_reports_solved() {
    let cube = RubixCube::create_solved_rubix();
    assert!(cube.is_solved());
    assert!(cube.get_past_moves().is_empty());
    assert!(cube.get_solving_route().is_empty());
}

#[test]
fn one_facelet_off_reports_unsolved() {
    let uniform = |c: Colour| [c; 9];
    for face in 0..6 {
        for pos in 0..9 {
            let mut faces = [
                uniform(Colour::Blue),
                uniform(Colour::Red),
                uniform(Colour::White),
                uniform(Colour::Orange),
                uniform(Colour::Green),
                uniform(Colour::Yellow),
            ];
            let altered = if faces[face][pos] == Colour::White {
                Colour::Green
            } else {
                Colour::White
            };
            faces[face][pos] = altered;
            let cube = RubixCube::create_custom_rubix(
                &faces[0], &faces[1], &faces[2], &faces[3], &faces[4], &faces[5],
            );
            assert!(!cube.is_solved(), "face {} pos {}", face, pos);
        }
    }
}

#[test]
fn custom_cube_round_trips_through_get_faces() {
    let f1 = [Colour::Blue; 9];
    let f2 = [Colour::Red; 9];
    let mut f3 = [Colour::White; 9];
    f3[4] = Colour::Yellow;
    let f4 = [Colour::Orange; 9];
    let f5 = [Colour::Green; 9];
    let f6 = [Colour::Yellow; 9];
    let cube = RubixCube::create_custom_rubix(&f1, &f2, &f3, &f4, &f5, &f6);
    let got = cube.get_faces();
    assert_eq!(got[0], f1);
    assert_eq!(got[1], f2);
    assert_eq!(got[2], f3);
    assert_eq!(got[3], f4);
    assert_eq!(got[4], f5);
    assert_eq!(got[5], f6);
}

#[test]
fn turn_then_undo_restores_configuration() {
    // A scrambled starting configuration, so the round trip is checked
    // away from the solved cube as well.
    for m in 0u8..18 {
        let mut cube = RubixCube::create_solved_rubix();
        cube.turn_cube(0);
        cube.turn_cube(7);
        cube.turn_cube(14);
        let before = cube.get_faces();
        let history_before = cube.get_past_moves();
        cube.turn_cube(m);
        cube.undo_turn();
        assert_eq!(cube.get_faces(), before, "move {}", m);
        assert_eq!(cube.get_past_moves(), history_before, "move {}", m);
    }
}

#[test]
fn every_move_changes_the_configuration() {
    for m in 0u8..18 {
        let mut cube = RubixCube::create_solved_rubix();
        let before = cube.get_faces();
        cube.turn_cube(m);
        assert_ne!(cube.get_faces(), before, "move {}", m);
    }
}

#[test]
fn four_quarter_turns_restore_configuration() {
    for m in 0u8..18 {
        let mut cube = RubixCube::create_solved_rubix();
        cube.turn_cube(5);
        cube.turn_cube(12);
        let before = cube.get_faces();
        for _ in 0..4 {
            cube.turn_cube(m);
        }
        assert_eq!(cube.get_faces(), before, "move {}", m);
    }
}

#[test]
fn colours_conserved_under_moves() {
    let mut cube = RubixCube::create_solved_rubix();
    assert_eq!(colour_counts(&cube), [9; 6]);
    for &m in &[0u8, 4, 8, 12, 16, 1, 17, 9, 3, 3, 10] {
        cube.turn_cube(m);
        assert_eq!(colour_counts(&cube), [9; 6], "after move {}", m);
    }
}

#[test]
fn colours_conserved_under_random_moves() {
    let mut cube = RubixCube::create_solved_rubix();
    cube.make_random_moves(40);
    assert_eq!(colour_counts(&cube), [9; 6]);
}

#[test]
fn history_tracks_applied_moves() {
    let mut cube = RubixCube::create_solved_rubix();
    cube.turn_cube(2);
    cube.turn_cube(11);
    cube.turn_cube(6);
    assert_eq!(cube.get_past_moves(), vec![2, 11, 6]);
    cube.undo_turn();
    assert_eq!(cube.get_past_moves(), vec![2, 11]);
    cube.undo_turn();
    cube.undo_turn();
    assert!(cube.get_past_moves().is_empty());
    assert!(cube.is_solved());
}

#[test]
fn random_moves_grow_history_with_legal_ids() {
    let mut cube = RubixCube::create_solved_rubix();
    cube.make_random_moves(25);
    let history = cube.get_past_moves();
    assert_eq!(history.len(), 25);
    assert!(history.iter().all(|&m| m < 18));
}

#[test]
fn invalid_move_is_rejected() {
    let mut cube = RubixCube::create_solved_rubix();
    assert_eq!(cube.try_turn_cube(18), Err(CubeError::InvalidMove));
    assert_eq!(cube.try_turn_cube(200), Err(CubeError::InvalidMove));
    assert!(cube.get_past_moves().is_empty());
    assert_eq!(cube.try_turn_cube(17), Ok(()));
    assert_eq!(cube.get_past_moves(), vec![17]);
}

#[test]
fn undo_on_empty_history_is_rejected() {
    let mut cube = RubixCube::create_solved_rubix();
    assert_eq!(cube.try_undo_turn(), Err(CubeError::UndoUnderflow));
    cube.turn_cube(4);
    assert_eq!(cube.try_undo_turn(), Ok(()));
    assert!(cube.is_solved());
    assert_eq!(cube.try_undo_turn(), Err(CubeError::UndoUnderflow));
}

#[test]
fn clone_is_independent() {
    let mut cube = RubixCube::create_solved_rubix();
    cube.turn_cube(9);
    let copy = cube.clone();
    assert_eq!(copy.get_faces(), cube.get_faces());
    assert_eq!(copy.get_past_moves(), cube.get_past_moves());
    let mut copy = copy;
    copy.turn_cube(1);
    assert_ne!(copy.get_faces(), cube.get_faces());
    assert_eq!(cube.get_past_moves(), vec![9]);
}
