use bomberman::game::{new, Cell, Direction, Game};

fn open_room() -> Game {
    // A 15x15 room: walls on the border, the player at (1, 1), an open
    // gate at (13, 13), everything else empty.
    let rows = vec![
        "XXXXXXXXXXXXXXX",
        "XM            X",
        "X             X",
        "X             X",
        "X             X",
        "X             X",
        "X             X",
        "X             X",
        "X             X",
        "X             X",
        "X             X",
        "X             X",
        "X             X",
        "X            OX",
        "XXXXXXXXXXXXXXX",
    ];
    new(&rows).unwrap()
}

#[test]
fn walkthrough_to_the_gate() {
    let mut g = open_room();
    assert_eq!(g.height, 15);
    assert_eq!(g.width, 15);
    assert_eq!(g.bomberman, (1, 1));
    let mut now = 1;
    for step in 1..=4usize {
        g.mv(Direction::Down, now);
        assert_eq!(g.bomberman, (1 + step, 1));
        assert!(g.active);
        now += 1;
    }
    for step in 1..=4usize {
        g.mv(Direction::Right, now);
        assert_eq!(g.bomberman, (5, 1 + step));
        assert!(g.active);
        now += 1;
    }
    for _ in 0..8 {
        g.mv(Direction::Down, now);
        now += 1;
    }
    for _ in 0..7 {
        g.mv(Direction::Right, now);
        now += 1;
    }
    assert_eq!(g.bomberman, (13, 12));
    assert!(g.active);
    g.mv(Direction::Right, now);
    assert_eq!(g.bomberman, (13, 13));
    assert!(!g.active);
    // Every later move is a no-op.
    g.mv(Direction::Left, now + 1);
    g.mv(Direction::Up, now + 2);
    assert_eq!(g.bomberman, (13, 13));
    assert!(!g.active);
}

#[test]
fn moving_into_wall_or_brick_is_a_no_op() {
    let mut g = new(&["XXXX", "XMBX", "XXXX"]).unwrap();
    let before = g.bomberman;
    g.mv(Direction::Up, 1); // wall
    assert_eq!(g.bomberman, before);
    g.mv(Direction::Right, 2); // brick
    assert_eq!(g.bomberman, before);
    g.mv(Direction::Left, 3); // wall
    assert_eq!(g.bomberman, before);
    assert!(g.active);
}

#[test]
fn moving_into_empty_shifts_by_one() {
    let mut g = new(&["XXXX", "XM X", "X  X", "XXXX"]).unwrap();
    g.mv(Direction::Right, 5);
    assert_eq!(g.bomberman, (1, 2));
    assert_eq!(g.updated, 5);
    g.mv(Direction::Down, 6);
    assert_eq!(g.bomberman, (2, 2));
    g.mv(Direction::Left, 7);
    assert_eq!(g.bomberman, (2, 1));
    g.mv(Direction::Up, 8);
    assert_eq!(g.bomberman, (1, 1));
    assert!(g.active);
    assert!(g.bomb.is_none());
}

#[test]
fn moving_onto_a_ghoul_ends_the_run() {
    let mut g = new(&["XXXX", "XMGX", "XXXX"]).unwrap();
    g.mv(Direction::Right, 1);
    assert_eq!(g.bomberman, (1, 2));
    assert!(!g.active);
    g.mv(Direction::Left, 2);
    assert_eq!(g.bomberman, (1, 2));
}

#[test]
fn replanting_keeps_the_armed_bomb() {
    let mut g = new(&["XXXX", "XM X", "XXXX"]).unwrap();
    g.plant(10);
    assert_eq!(g.bomb, Some((10, (1, 1))));
    g.mv(Direction::Right, 11);
    g.plant(12);
    // The bomb is neither moved nor re-timed.
    assert_eq!(g.bomb, Some((10, (1, 1))));
}

#[test]
fn blast_demolishes_the_diagonal_pattern() {
    let mut g = new(&[
        "XXXXXXX",
        "X     X",
        "X MB  X",
        "X  G  X",
        "XXXXXXX",
    ])
    .unwrap();
    g.plant(0);
    assert_eq!(g.bomb, Some((0, (2, 2))));
    // Before the fuse has elapsed nothing happens.
    g.blast(3);
    assert_eq!(g.bomb, Some((0, (2, 2))));
    assert_eq!(g.landscape[2][3], Cell::Brick);
    // At four seconds the bomb detonates.
    g.blast(4);
    assert!(g.bomb.is_none());
    // (2,3) held a brick and (3,3) a ghoul: both demolished.
    assert_eq!(g.landscape[2][3], Cell::Empty);
    assert_eq!(g.landscape[3][3], Cell::Empty);
    // (2,1) and (1,1) were already empty and stay so; walls are untouched.
    assert_eq!(g.landscape[2][1], Cell::Empty);
    assert_eq!(g.landscape[1][1], Cell::Empty);
    assert_eq!(g.landscape[2][0], Cell::Wall);
}

#[test]
fn blast_never_touches_walls_or_gates() {
    let mut g = new(&["XXXXX", "XMXOX", "X   X", "XXXXX"]).unwrap();
    // Pattern cells around (1,1): (1,2) wall, (2,2) empty, (1,0) wall,
    // (0,0) wall.
    g.plant(0);
    g.blast(4);
    assert!(g.bomb.is_none());
    assert_eq!(g.landscape[1][2], Cell::Wall);
    assert_eq!(g.landscape[1][3], Cell::OpenGate);
    assert_eq!(g.landscape[1][0], Cell::Wall);
    assert_eq!(g.landscape[0][0], Cell::Wall);
}

#[test]
fn movement_triggers_a_due_blast() {
    let mut g = new(&["XXXX", "XMBX", "X  X", "XXXX"]).unwrap();
    g.plant(0);
    // A movement command issued after the fuse has elapsed (the bomb was
    // timed at second zero, and the wall clock is long past second four)
    // runs the blast check: the brick at (1,2), diagonal offset (0,+1)
    // from the plant at (1,1), falls.
    g.bomberman_down();
    assert_eq!(g.bomberman, (2, 1));
    assert!(g.bomb.is_none());
    assert_eq!(g.landscape[1][2], Cell::Empty);
}

#[test]
fn bomb_status_reports_the_armed_position() {
    let mut g = new(&["XXXX", "XM X", "XXXX"]).unwrap();
    assert!(g.bomb_status().is_none());
    g.plant(3);
    let status = g.bomb_status().unwrap();
    assert_eq!(status.coords, (1, 1));
}

#[test]
fn surrounding_buckets_every_cell_in_the_window() {
    let mut g = new(&["XXX", "XMX", "XXX"]).unwrap();
    let s = g.surrounding();
    assert_eq!(s.bombermans, vec![(1, 1)]);
    assert_eq!(
        s.wall,
        vec![(0, 0), (0, 1), (0, 2), (1, 0), (1, 2), (2, 0), (2, 1), (2, 2)]
    );
    assert!(s.bricks.is_empty());
    assert!(s.ghosts.is_empty());
    assert!(s.gates.is_empty());
    // The report is a pure read.
    g.mv(Direction::Up, 1);
    assert_eq!(g.bomberman, (1, 1));
}

#[test]
fn surrounding_window_is_clipped_to_radius_seven() {
    let g = new(&bomberman::templates::wide_1()).unwrap();
    let s = g.surrounding();
    // The player stands at (1, 1); nothing beyond column 8 is visible.
    assert!(s.wall.iter().all(|c| c.1 <= 8));
    assert!(s.bricks.iter().all(|c| c.1 <= 8 && c.0 <= 8));
    assert_eq!(s.bombermans, vec![(1, 1)]);
    // The bricks of the top row within the window are reported.
    assert!(s.bricks.contains(&(1, 6)));
    assert!(s.bricks.contains(&(1, 8)));
    assert!(!s.bricks.iter().any(|c| *c == (1, 9)));
}

#[test]
fn bomb_surrounding_centers_on_the_bomb() {
    let mut g = new(&["XXXXX", "XM GX", "XXXXX"]).unwrap();
    assert!(g.bomb_surrounding().is_none());
    g.plant(0);
    g.mv(Direction::Right, 1);
    let s = g.bomb_surrounding().unwrap();
    assert_eq!(s.bombermans, vec![(1, 2)]);
    assert!(s.ghosts.contains(&(1, 3)));
}
