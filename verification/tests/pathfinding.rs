use dungeon_gen::pathfinding::ortho_star;

#[test]
fn open_grid_path_is_manhattan_optimal() {
    // on a fully open grid the path from (0,0) to (4,4) takes 8 unit steps,
    // so it lists 9 cells, each consecutive pair one unit apart on one axis
    let path = ortho_star((0, 0), (4, 4), |_x, _y| true, |_a, _b| 1).expect("path must exist");
    assert_eq!(path.len(), 9);
    assert_eq!(path[0], (4, 4));
    assert_eq!(path[path.len() - 1], (0, 0));
    for w in path.windows(2) {
        let dx = (w[0].0 - w[1].0).abs();
        let dy = (w[0].1 - w[1].1).abs();
        assert_eq!(dx + dy, 1);
    }
}

#[test]
fn unwalkable_goal_means_no_path() {
    let walk = |x: i32, y: i32| !(x == 3 && y == 3);
    assert!(ortho_star((0, 0), (3, 3), walk, |_a, _b| 1).is_none());
    assert!(ortho_star((9, -4), (3, 3), walk, |_a, _b| 1).is_none());
    assert!(ortho_star((3, 3), (3, 3), walk, |_a, _b| 1).is_none());
}

#[test]
fn start_equals_goal() {
    let path = ortho_star((2, 2), (2, 2), |_x, _y| true, |_a, _b| 1).expect("path must exist");
    assert_eq!(path, vec![(2, 2)]);
}

#[test]
fn walled_off_goal_in_bounded_grid() {
    // a 5x5 grid whose column x == 3 is solid wall: the goal column is
    // walkable but unreachable
    let walk = |x: i32, y: i32| (0..5).contains(&x) && (0..5).contains(&y) && x != 3;
    assert!(ortho_star((0, 2), (4, 2), walk, |_a, _b| 1).is_none());
}

#[test]
fn path_routes_around_obstacle() {
    // block the direct corridor and check the detour is still found
    let walk = |x: i32, y: i32| {
        (0..=4).contains(&x) && (0..=4).contains(&y) && !(x == 2 && (0..=3).contains(&y))
    };
    let path = ortho_star((0, 0), (4, 0), walk, |_a, _b| 1).expect("detour must exist");
    assert_eq!(path[0], (4, 0));
    assert_eq!(path[path.len() - 1], (0, 0));
    // the detour must dip below the wall segment
    assert!(path.contains(&(2, 4)));
    for w in path.windows(2) {
        let dx = (w[0].0 - w[1].0).abs();
        let dy = (w[0].1 - w[1].1).abs();
        assert_eq!(dx + dy, 1);
    }
    // 4 across + down and up around the wall: 8 steps, 9 cells
    assert_eq!(path.len(), 13);
}
