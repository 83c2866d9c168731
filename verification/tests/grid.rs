use bomberman::game::{new, Cell, GameError};
use bomberman::templates::{by_name, cell_from_char, random, small_1, wide_1, LandscapeFromChar};

#[test]
fn test_small_1() {
    let template = small_1();
    let sut = new(&template).unwrap();
    assert_eq!(sut.height, 15);
    assert_eq!(sut.width, 15);
    let cells: usize = sut.landscape.iter().map(|r| r.len()).sum();
    assert_eq!(cells, 15 * 15);
    assert_eq!(sut.bomberman, (1, 1));
    assert_eq!(sut.landscape[3][13], Cell::Ghoul);
    assert_eq!(sut.landscape[0][13], Cell::Wall);
    assert_eq!(sut.landscape[1][13], Cell::Brick);
    assert_eq!(sut.landscape[13][13], Cell::OpenGate);
}

#[test]
fn test_wide_1() {
    let template = wide_1();
    let sut = new(&template).unwrap();
    assert_eq!(sut.height, 15);
    assert_eq!(sut.width, 60);
    let cells: usize = sut.landscape.iter().map(|r| r.len()).sum();
    assert_eq!(cells, 15 * 60);
    assert_eq!(sut.bomberman, (1, 1));
    assert_eq!(sut.landscape[1][58], Cell::OpenGate);
}

#[test]
fn new_game_starts_active_without_bomb() {
    let sut = new(&small_1()).unwrap();
    assert!(sut.active);
    assert!(sut.bomb.is_none());
    assert_eq!(sut.started, sut.updated);
    assert_eq!(sut.surrounding_size, 7);
}

#[test]
fn unknown_character_is_invalid_template() {
    let r = new(&["XZM"]);
    assert!(matches!(r, Err(GameError::InvalidTemplate)));
}

#[test]
fn missing_marker_is_invalid_template() {
    let r = new(&["XX", "XX"]);
    assert!(matches!(r, Err(GameError::InvalidTemplate)));
}

#[test]
fn empty_template_is_invalid() {
    let rows: Vec<&str> = Vec::new();
    assert!(matches!(new(&rows), Err(GameError::InvalidTemplate)));
}

#[test]
fn ragged_rows_leave_cells_absent() {
    let g = new(&["XXXX", "XM"]).unwrap();
    assert_eq!(g.height, 2);
    assert_eq!(g.width, 4);
    assert_eq!(g.landscape[1].len(), 2);
    let mut g = g;
    // The cell to the player's right is absent: the move is a no-op.
    g.mv(bomberman::game::Direction::Right, 1);
    assert_eq!(g.bomberman, (1, 1));
}

#[test]
fn last_marker_wins() {
    let g = new(&["M M", "   "]).unwrap();
    assert_eq!(g.bomberman, (0, 2));
    assert_eq!(g.landscape[0][0], Cell::Empty);
    assert_eq!(g.landscape[0][2], Cell::Empty);
}

#[test]
fn characters_map_to_documented_cells() {
    assert!(matches!(cell_from_char(' '), LandscapeFromChar::Land { cell: Cell::Empty }));
    assert!(matches!(cell_from_char('X'), LandscapeFromChar::Land { cell: Cell::Wall }));
    assert!(matches!(cell_from_char('B'), LandscapeFromChar::Land { cell: Cell::Brick }));
    assert!(matches!(cell_from_char('O'), LandscapeFromChar::Land { cell: Cell::OpenGate }));
    assert!(matches!(cell_from_char('H'), LandscapeFromChar::Land { cell: Cell::HiddenGate }));
    assert!(matches!(cell_from_char('G'), LandscapeFromChar::Land { cell: Cell::Ghoul }));
    assert!(matches!(cell_from_char('M'), LandscapeFromChar::Bomber));
    assert!(matches!(cell_from_char('q'), LandscapeFromChar::Unknown));
}

#[test]
fn by_name_folds_case() {
    let small = by_name("SMALL_1").expect("small_1 should resolve");
    assert_eq!(small, small_1());
    let wide = by_name("Wide_1").expect("wide_1 should resolve");
    assert_eq!(wide, wide_1());
    assert!(by_name("no_such_level").is_none());
}

#[test]
fn random_picks_a_built_in_level() {
    let t = random();
    assert!(t == small_1() || t == wide_1());
}
