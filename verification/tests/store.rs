use bomberman::command::{
    command, command2, command3, flatten, Command, CommandOutput, Commands,
};
use bomberman::game::{self, Direction};
use bomberman::responses::{to_list, List};
use bomberman::state::{new, ActiveGame, State};
use bomberman::templates;

fn uuids(gs: &Vec<ActiveGame>) -> Vec<u128> {
    gs.iter().map(|g| g.uuid).collect()
}

fn small_game() -> game::Game {
    game::new(&templates::small_1()).unwrap()
}

#[test]
fn test_size() {
    let mut sut = new(2);
    assert_eq!(sut.list_games().len(), 0);
    let uuid_1 = sut.insert_and_evict(game::new(&templates::small_1()).unwrap());
    assert_eq!(uuids(&sut.list_games()), vec![uuid_1]);
    let uuid_2 = sut.insert_and_evict(game::new(&templates::wide_1()).unwrap());
    assert_eq!(uuids(&sut.list_games()), vec![uuid_2, uuid_1]);
    let uuid_3 = sut.insert_and_evict(game::new(&templates::wide_1()).unwrap());
    assert_eq!(uuids(&sut.list_games()), vec![uuid_3, uuid_2]);
}

#[test]
fn eviction_unreaches_the_oldest() {
    let mut sut = new(2);
    let mut ids = Vec::new();
    for _ in 0..4 {
        ids.push(sut.insert_and_evict(small_game()));
    }
    assert_eq!(sut.list_games().len(), 2);
    // The two oldest identifiers are gone: applying to them finds nothing.
    for id in &ids[..2] {
        assert!(sut.apply_to_game(*id, &Commands::FetchBombStatus, 0).is_none());
    }
    // The two newest are still reachable.
    for id in &ids[2..] {
        assert!(sut.apply_to_game(*id, &Commands::FetchBombStatus, 0).is_some());
    }
}

#[test]
fn list_reports_timestamps() {
    let mut sut = new(8);
    let g = small_game();
    let (started, updated) = (g.started, g.updated);
    let id = sut.insert_and_evict(g);
    let listed = sut.list_games();
    assert_eq!(listed.len(), 1);
    assert_eq!(listed[0].uuid, id);
    assert_eq!(listed[0].started, started);
    assert_eq!(listed[0].updated, updated);
}

#[test]
fn apply_to_unknown_session_has_no_effect() {
    let mut sut = new(4);
    let id = sut.insert_and_evict(small_game());
    assert!(sut.apply_to_game(id ^ 1, &Commands::PlantBomb, 0).is_none());
    assert_eq!(uuids(&sut.list_games()), vec![id]);
    // The known session still has no bomb: the stray plant hit nothing.
    match sut.apply_to_game(id, &Commands::FetchBombStatus, 0) {
        Some(CommandOutput::BombStatus(status)) => assert!(status.is_none()),
        other => panic!("unexpected report: {:?}", other),
    }
}

#[test]
fn apply_moves_exactly_one_session() {
    let mut sut = new(4);
    let id_a = sut.insert_and_evict(small_game());
    let id_b = sut.insert_and_evict(small_game());
    let mv = Commands::MoveBomberman { direction: Direction::Right };
    assert!(sut.apply_to_game(id_a, &mv, 1).is_some());
    match sut.apply_to_game(id_a, &Commands::FetchSurrounding, 2) {
        Some(CommandOutput::Surrounding(s)) => assert_eq!(s.bombermans, vec![(1, 2)]),
        other => panic!("unexpected report: {:?}", other),
    }
    match sut.apply_to_game(id_b, &Commands::FetchSurrounding, 3) {
        Some(CommandOutput::Surrounding(s)) => assert_eq!(s.bombermans, vec![(1, 1)]),
        other => panic!("unexpected report: {:?}", other),
    }
}

fn chain(cmds: &[Commands]) -> Command {
    let mut it = cmds.iter().rev();
    let last = *it.next().expect("chain needs at least one command");
    let mut c = Command { command: last, additional: None };
    for cmd in it {
        c = Command { command: *cmd, additional: Some(Box::new(c)) };
    }
    c
}

#[test]
fn flatten_preserves_submission_order() {
    let c = chain(&[
        Commands::PlantBomb,
        Commands::MoveBomberman { direction: Direction::Left },
        Commands::FetchSurrounding,
    ]);
    assert_eq!(
        flatten(&c),
        vec![
            Commands::PlantBomb,
            Commands::MoveBomberman { direction: Direction::Left },
            Commands::FetchSurrounding,
        ]
    );
    let single = Command { command: Commands::FetchBombStatus, additional: None };
    assert_eq!(flatten(&single), vec![Commands::FetchBombStatus]);
}

#[test]
fn first_protocol_only_moves_and_looks() {
    let mut sut = new(4);
    let id = sut.insert_and_evict(small_game());
    // The plant is ignored under the first protocol.
    let r = command(&mut sut, id, &chain(&[Commands::PlantBomb]));
    assert!(r.is_none());
    match sut.apply_to_game(id, &Commands::FetchBombStatus, 0) {
        Some(CommandOutput::BombStatus(status)) => assert!(status.is_none()),
        other => panic!("unexpected report: {:?}", other),
    }
    // A move followed by a surroundings query reports the new position.
    let r = command(
        &mut sut,
        id,
        &chain(&[
            Commands::MoveBomberman { direction: Direction::Right },
            Commands::FetchSurrounding,
        ]),
    );
    let s = r.expect("a live session answers a surroundings query");
    assert_eq!(s.bombermans, vec![(1, 2)]);
}

#[test]
fn second_protocol_plants_and_reports() {
    let mut sut = new(4);
    let id = sut.insert_and_evict(small_game());
    let (surrounding, bomb) = command2(
        &mut sut,
        id,
        &chain(&[Commands::PlantBomb, Commands::FetchBombStatus]),
    );
    assert!(surrounding.is_none());
    assert_eq!(bomb.expect("the bomb was just planted").coords, (1, 1));
    // Against an unknown identifier every query reports nothing.
    let (surrounding, bomb) = command2(
        &mut sut,
        id ^ 1,
        &chain(&[Commands::FetchSurrounding, Commands::FetchBombStatus]),
    );
    assert!(surrounding.is_none());
    assert!(bomb.is_none());
}

#[test]
fn later_query_results_overwrite_earlier_ones() {
    let mut sut = new(4);
    let id = sut.insert_and_evict(small_game());
    // Query, move, query again: only the last result is retained.
    let (surrounding, _) = command2(
        &mut sut,
        id,
        &chain(&[
            Commands::FetchSurrounding,
            Commands::MoveBomberman { direction: Direction::Right },
            Commands::FetchSurrounding,
        ]),
    );
    let s = surrounding.expect("a live session answers a surroundings query");
    assert_eq!(s.bombermans, vec![(1, 2)]);
}

#[test]
fn third_protocol_reports_bomb_surroundings() {
    let mut sut = new(4);
    let id = sut.insert_and_evict(small_game());
    let (surrounding, bomb, bomb_surroundings) = command3(
        &mut sut,
        id,
        &chain(&[
            Commands::PlantBomb,
            Commands::MoveBomberman { direction: Direction::Right },
            Commands::FetchBombStatus,
            Commands::FetchBombSurroundings,
        ]),
    );
    assert!(surrounding.is_none());
    assert_eq!(bomb.expect("the bomb is armed").coords, (1, 1));
    let s = bomb_surroundings.expect("the bomb is armed");
    // The window is centered on the bomb; the player's own coordinate is
    // still reported in the bombers bucket.
    assert_eq!(s.bombermans, vec![(1, 2)]);
    assert!(s.wall.contains(&(0, 0)));
}

#[test]
fn to_list_reverses_the_coordinates() {
    let l = to_list(&vec![(1, 2), (3, 4)]);
    assert_eq!(l.head, Some((3, 4)));
    let tail: &List = l.tail.as_deref().expect("two more nodes");
    assert_eq!(tail.head, Some((1, 2)));
    let end: &List = tail.tail.as_deref().expect("the end node");
    assert_eq!(end.head, None);
    assert!(end.tail.is_none());
    // An empty vector gives the bare end node.
    let empty = to_list(&Vec::new());
    assert_eq!(empty.head, None);
    assert!(empty.tail.is_none());
}

#[test]
fn zero_capacity_store_keeps_nothing() {
    let mut sut: State = new(0);
    let id = sut.insert_and_evict(small_game());
    assert!(sut.list_games().is_empty());
    assert!(sut.apply_to_game(id, &Commands::FetchBombStatus, 0).is_none());
}
