//! Command chains: one or more operations submitted together and applied
//! in order to a single session, with the last result of each query kind
//! retained for the aggregated response.

use vstd::prelude::*;

use crate::game::{
    now_seconds, spec_move_cmd, spec_plant, spec_surrounding, spec_window, BombStatus, Direction,
    Game, GameV, Surroundings, SurroundingsV,
};
use crate::state::{State, StateV};

verus! {

/// One operation against a session.
#[derive(Clone, Copy, Debug, PartialEq, Eq, Structural)]
pub enum Commands {
    MoveBomberman { direction: Direction },
    FetchSurrounding,
    FetchBombSurroundings,
    PlantBomb,
    FetchBombStatus,
}

/// A chain of commands: the first one, then optionally the rest.
#[derive(Debug)]
pub struct Command {
    pub command: Commands,
    pub additional: Option<Box<Command>>,
}

/// The chain as a flat sequence, in submission order.
pub open spec fn spec_flatten(c: Command) -> Seq<Commands>
    decreases c,
{
    match c.additional {
        None => seq![c.command],
        Some(rest) => seq![c.command] + spec_flatten(*rest),
    }
}

/// Flatten a chain into the sequence of its commands.
pub fn flatten(command: &Command) -> (r: Vec<Commands>)
    ensures
        r@ == spec_flatten(*command),
    decreases *command,
{
    let mut r: Vec<Commands> = Vec::new();
    r.push(command.command);
    match &command.additional {
        None => {},
        Some(rest) => {
            let mut tail = flatten(rest);
            r.append(&mut tail);
        },
    }
    proof {
        assert(r@ =~= spec_flatten(*command));
    }
    r
}

/// What one applied command reports back.
#[derive(Clone, Debug)]
pub enum CommandOutput {
    /// A move or a plant: nothing to report.
    Done,
    /// The window around the player.
    Surrounding(Surroundings),
    /// Where the armed bomb sits, if one is armed.
    BombStatus(Option<BombStatus>),
    /// The window around the armed bomb, if one is armed.
    BombSurroundings(Option<Surroundings>),
}

/// The mathematical model of a [`CommandOutput`].
pub enum CommandOutputV {
    Done,
    Surrounding(SurroundingsV),
    BombStatus(Option<(int, int)>),
    BombSurroundings(Option<SurroundingsV>),
}

impl View for CommandOutput {
    type V = CommandOutputV;

    open spec fn view(&self) -> CommandOutputV {
        match self {
            CommandOutput::Done => CommandOutputV::Done,
            CommandOutput::Surrounding(s) => CommandOutputV::Surrounding(s@),
            CommandOutput::BombStatus(b) => CommandOutputV::BombStatus(
                match b {
                    None => None,
                    Some(bs) => Some((bs.coords.0 as int, bs.coords.1 as int)),
                },
            ),
            CommandOutput::BombSurroundings(o) => CommandOutputV::BombSurroundings(
                match o {
                    None => None,
                    Some(s) => Some(s@),
                },
            ),
        }
    }
}

/// How one command changes a session and what it reports, at time `now`.
pub open spec fn spec_step(g: GameV, cmd: Commands, now: int) -> (GameV, CommandOutputV) {
    match cmd {
        Commands::MoveBomberman { direction } => (
            spec_move_cmd(g, direction, now),
            CommandOutputV::Done,
        ),
        Commands::PlantBomb => (spec_plant(g, now), CommandOutputV::Done),
        Commands::FetchSurrounding => (g, CommandOutputV::Surrounding(spec_surrounding(g))),
        Commands::FetchBombStatus => (
            g,
            CommandOutputV::BombStatus(
                match g.bomb {
                    None => None,
                    Some((t, p)) => Some(p),
                },
            ),
        ),
        Commands::FetchBombSurroundings => (
            g,
            CommandOutputV::BombSurroundings(
                match g.bomb {
                    None => None,
                    Some((t, p)) => Some(spec_window(g, p)),
                },
            ),
        ),
    }
}

impl Game {
    /// Apply one command to this session at time `now`.
    pub fn step(&mut self, cmd: &Commands, now: i64) -> (r: CommandOutput)
        requires
            old(self)@.wf(),
        ensures
            final(self)@ == spec_step(old(self)@, *cmd, now as int).0,
            final(self)@.wf(),
            r@ == spec_step(old(self)@, *cmd, now as int).1,
    {
        match cmd {
            Commands::MoveBomberman { direction } => {
                self.mv(*direction, now);
                self.blast(now);
                CommandOutput::Done
            },
            Commands::PlantBomb => {
                self.plant(now);
                CommandOutput::Done
            },
            Commands::FetchSurrounding => CommandOutput::Surrounding(self.surrounding()),
            Commands::FetchBombStatus => CommandOutput::BombStatus(self.bomb_status()),
            Commands::FetchBombSurroundings => CommandOutput::BombSurroundings(
                self.bomb_surrounding(),
            ),
        }
    }
}

/// How one command against one identifier changes the store and what it
/// reports: nothing at all when the identifier is not live.
pub open spec fn spec_apply(s: StateV, id: u128, cmd: Commands, now: int) -> (
    StateV,
    Option<CommandOutputV>,
) {
    if s.games.dom().contains(id) {
        let stepped = spec_step(s.games[id], cmd, now);
        (StateV { games: s.games.insert(id, stepped.0), ..s }, Some(stepped.1))
    } else {
        (s, None)
    }
}

/// Law: a command against one identifier never touches any other session.
/// The capacity, the insertion order, which sessions are live, and every
/// other session's state are exactly as they were.
pub proof fn lemma_apply_touches_only_its_session(s: StateV, id: u128, cmd: Commands, now: int)
    ensures
        spec_apply(s, id, cmd, now).0.stack == s.stack,
        spec_apply(s, id, cmd, now).0.size == s.size,
        spec_apply(s, id, cmd, now).0.games.dom() =~= s.games.dom(),
        forall|other: u128|
            other != id && s.games.dom().contains(other)
                ==> #[trigger] spec_apply(s, id, cmd, now).0.games[other] == s.games[other],
{
}

impl State {
    /// Apply one command to the session `uuid` at time `now`, under
    /// exclusive access to the store. Returns the command's report, or
    /// nothing — with no side effect — when the session is absent
    /// (evicted, or never created).
    pub fn apply_to_game(&mut self, uuid: u128, cmd: &Commands, now: i64) -> (r: Option<
        CommandOutput,
    >)
        requires
            old(self)@.wf(),
        ensures
            final(self)@ == spec_apply(old(self)@, uuid, *cmd, now as int).0,
            final(self)@.wf(),
            (r is Some) == old(self)@.games.dom().contains(uuid),
            match r {
                Some(out) => Some(out@) == spec_apply(old(self)@, uuid, *cmd, now as int).1,
                None => true,
            },
    {
        let ghost s0 = self@;
        match self.games.remove(&uuid) {
            None => {
                proof {
                    assert(self@.games =~= s0.games);
                    assert(self@ =~= s0);
                }
                None
            },
            Some(mut game) => {
                proof {
                    assert(s0.games.dom().contains(uuid));
                    assert(s0.games[uuid] == game@);
                    assert(s0.games[uuid].wf());
                }
                let out = game.step(cmd, now);
                self.games.insert(uuid, game);
                proof {
                    assert(self@.games =~= s0.games.insert(
                        uuid,
                        spec_step(s0.games[uuid], *cmd, now as int).0,
                    ));
                    assert(self@ =~= spec_apply(s0, uuid, *cmd, now as int).0);
                    assert(self@.games.dom() =~= s0.games.dom());
                    assert(self@.wf());
                }
                Some(out)
            },
        }
    }
}

/// An optional surroundings report, as its mathematical model.
pub open spec fn surr_opt_view(o: Option<Surroundings>) -> Option<SurroundingsV> {
    match o {
        None => None,
        Some(s) => Some(s@),
    }
}

/// An optional bomb-status report, as its mathematical model.
pub open spec fn bomb_opt_view(o: Option<BombStatus>) -> Option<(int, int)> {
    match o {
        None => None,
        Some(b) => Some((b.coords.0 as int, b.coords.1 as int)),
    }
}

/// Running a chain under the first protocol: moves and surroundings
/// queries take effect, every other command is ignored, and only the last
/// surroundings result is retained.
pub open spec fn spec_run1(s: StateV, id: u128, cmds: Seq<Commands>, now: int) -> (
    StateV,
    Option<SurroundingsV>,
)
    decreases cmds.len(),
{
    if cmds.len() == 0 {
        (s, None)
    } else {
        let prev = spec_run1(s, id, cmds.drop_last(), now);
        let cmd = cmds.last();
        match cmd {
            Commands::MoveBomberman { direction } => (spec_apply(prev.0, id, cmd, now).0, prev.1),
            Commands::FetchSurrounding => (
                spec_apply(prev.0, id, cmd, now).0,
                match spec_apply(prev.0, id, cmd, now).1 {
                    Some(CommandOutputV::Surrounding(sv)) => Some(sv),
                    _ => None,
                },
            ),
            _ => prev,
        }
    }
}

/// Running a chain under the second protocol: moves, plants, surroundings
/// and bomb-status queries take effect; bomb-surroundings queries are
/// ignored; only the last result of each query kind is retained.
pub open spec fn spec_run2(s: StateV, id: u128, cmds: Seq<Commands>, now: int) -> (
    StateV,
    Option<SurroundingsV>,
    Option<(int, int)>,
)
    decreases cmds.len(),
{
    if cmds.len() == 0 {
        (s, None, None)
    } else {
        let prev = spec_run2(s, id, cmds.drop_last(), now);
        let cmd = cmds.last();
        let applied = spec_apply(prev.0, id, cmd, now);
        match cmd {
            Commands::MoveBomberman { direction } => (applied.0, prev.1, prev.2),
            Commands::PlantBomb => (applied.0, prev.1, prev.2),
            Commands::FetchSurrounding => (
                applied.0,
                match applied.1 {
                    Some(CommandOutputV::Surrounding(sv)) => Some(sv),
                    _ => None,
                },
                prev.2,
            ),
            Commands::FetchBombStatus => (
                applied.0,
                prev.1,
                match applied.1 {
                    Some(CommandOutputV::BombStatus(ob)) => ob,
                    _ => None,
                },
            ),
            Commands::FetchBombSurroundings => prev,
        }
    }
}

/// Running a chain under the third protocol: every command takes effect,
/// and only the last result of each query kind is retained.
pub open spec fn spec_run3(s: StateV, id: u128, cmds: Seq<Commands>, now: int) -> (
    StateV,
    Option<SurroundingsV>,
    Option<(int, int)>,
    Option<SurroundingsV>,
)
    decreases cmds.len(),
{
    if cmds.len() == 0 {
        (s, None, None, None)
    } else {
        let prev = spec_run3(s, id, cmds.drop_last(), now);
        let cmd = cmds.last();
        let applied = spec_apply(prev.0, id, cmd, now);
        match cmd {
            Commands::MoveBomberman { direction } => (applied.0, prev.1, prev.2, prev.3),
            Commands::PlantBomb => (applied.0, prev.1, prev.2, prev.3),
            Commands::FetchSurrounding => (
                applied.0,
                match applied.1 {
                    Some(CommandOutputV::Surrounding(sv)) => Some(sv),
                    _ => None,
                },
                prev.2,
                prev.3,
            ),
            Commands::FetchBombStatus => (
                applied.0,
                prev.1,
                match applied.1 {
                    Some(CommandOutputV::BombStatus(ob)) => ob,
                    _ => None,
                },
                prev.3,
            ),
            Commands::FetchBombSurroundings => (
                applied.0,
                prev.1,
                prev.2,
                match applied.1 {
                    Some(CommandOutputV::BombSurroundings(ov)) => ov,
                    _ => None,
                },
            ),
        }
    }
}

/// Resolve a chain under the first protocol against the session `uuid`,
/// at the current wall-clock time, and return the retained surroundings
/// result, if any.
pub fn command(state: &mut State, uuid: u128, chain: &Command) -> (r: Option<Surroundings>)
    requires
        old(state)@.wf(),
    ensures
        final(state)@.wf(),
        exists|now: int|
            #![trigger spec_run1(old(state)@, uuid, spec_flatten(*chain), now)]
            {
                let run = spec_run1(old(state)@, uuid, spec_flatten(*chain), now);
                &&& final(state)@ == run.0
                &&& surr_opt_view(r) == run.1
            },
{
    let now = now_seconds();
    let cmds = flatten(chain);
    let mut surrounding: Option<Surroundings> = None;
    let mut i: usize = 0;
    while i < cmds.len()
        invariant
            state@.wf(),
            cmds@ == spec_flatten(*chain),
            0 <= i <= cmds@.len(),
            ({
                let run = spec_run1(old(state)@, uuid, cmds@.take(i as int), now as int);
                &&& state@ == run.0
                &&& surr_opt_view(surrounding) == run.1
            }),
        decreases cmds@.len() - i,
    {
        let cmd = cmds[i];
        proof {
            assert(cmds@.take(i as int + 1).drop_last() =~= cmds@.take(i as int));
            assert(cmds@.take(i as int + 1).last() == cmds@[i as int]);
        }
        match cmd {
            Commands::MoveBomberman { direction: _ } => {
                let _ = state.apply_to_game(uuid, &cmd, now);
            },
            Commands::FetchSurrounding => {
                surrounding = match state.apply_to_game(uuid, &cmd, now) {
                    Some(CommandOutput::Surrounding(s)) => Some(s),
                    _ => None,
                };
            },
            _ => {},
        }
        i = i + 1;
    }
    proof {
        assert(cmds@.take(cmds@.len() as int) =~= spec_flatten(*chain));
    }
    surrounding
}

/// Resolve a chain under the second protocol against the session `uuid`,
/// at the current wall-clock time, and return the retained surroundings
/// and bomb-status results.
pub fn command2(state: &mut State, uuid: u128, chain: &Command) -> (r: (
    Option<Surroundings>,
    Option<BombStatus>,
))
    requires
        old(state)@.wf(),
    ensures
        final(state)@.wf(),
        exists|now: int|
            #![trigger spec_run2(old(state)@, uuid, spec_flatten(*chain), now)]
            {
                let run = spec_run2(old(state)@, uuid, spec_flatten(*chain), now);
                &&& final(state)@ == run.0
                &&& surr_opt_view(r.0) == run.1
                &&& bomb_opt_view(r.1) == run.2
            },
{
    let now = now_seconds();
    let cmds = flatten(chain);
    let mut surrounding: Option<Surroundings> = None;
    let mut bomb_status: Option<BombStatus> = None;
    let mut i: usize = 0;
    while i < cmds.len()
        invariant
            state@.wf(),
            cmds@ == spec_flatten(*chain),
            0 <= i <= cmds@.len(),
            ({
                let run = spec_run2(old(state)@, uuid, cmds@.take(i as int), now as int);
                &&& state@ == run.0
                &&& surr_opt_view(surrounding) == run.1
                &&& bomb_opt_view(bomb_status) == run.2
            }),
        decreases cmds@.len() - i,
    {
        let cmd = cmds[i];
        proof {
            assert(cmds@.take(i as int + 1).drop_last() =~= cmds@.take(i as int));
            assert(cmds@.take(i as int + 1).last() == cmds@[i as int]);
        }
        match cmd {
            Commands::MoveBomberman { direction: _ } => {
                let _ = state.apply_to_game(uuid, &cmd, now);
            },
            Commands::PlantBomb => {
                let _ = state.apply_to_game(uuid, &cmd, now);
            },
            Commands::FetchSurrounding => {
                surrounding = match state.apply_to_game(uuid, &cmd, now) {
                    Some(CommandOutput::Surrounding(s)) => Some(s),
                    _ => None,
                };
            },
            Commands::FetchBombStatus => {
                bomb_status = match state.apply_to_game(uuid, &cmd, now) {
                    Some(CommandOutput::BombStatus(b)) => b,
                    _ => None,
                };
            },
            Commands::FetchBombSurroundings => {},
        }
        i = i + 1;
    }
    proof {
        assert(cmds@.take(cmds@.len() as int) =~= spec_flatten(*chain));
    }
    (surrounding, bomb_status)
}

/// Resolve a chain under the third protocol against the session `uuid`,
/// at the current wall-clock time, and return the retained surroundings,
/// bomb-status and bomb-surroundings results.
pub fn command3(state: &mut State, uuid: u128, chain: &Command) -> (r: (
    Option<Surroundings>,
    Option<BombStatus>,
    Option<Surroundings>,
))
    requires
        old(state)@.wf(),
    ensures
        final(state)@.wf(),
        exists|now: int|
            #![trigger spec_run3(old(state)@, uuid, spec_flatten(*chain), now)]
            {
                let run = spec_run3(old(state)@, uuid, spec_flatten(*chain), now);
                &&& final(state)@ == run.0
                &&& surr_opt_view(r.0) == run.1
                &&& bomb_opt_view(r.1) == run.2
                &&& surr_opt_view(r.2) == run.3
            },
{
    let now = now_seconds();
    let cmds = flatten(chain);
    let mut surrounding: Option<Surroundings> = None;
    let mut bomb_status: Option<BombStatus> = None;
    let mut bomb_surroundings: Option<Surroundings> = None;
    let mut i: usize = 0;
    while i < cmds.len()
        invariant
            state@.wf(),
            cmds@ == spec_flatten(*chain),
            0 <= i <= cmds@.len(),
            ({
                let run = spec_run3(old(state)@, uuid, cmds@.take(i as int), now as int);
                &&& state@ == run.0
                &&& surr_opt_view(surrounding) == run.1
                &&& bomb_opt_view(bomb_status) == run.2
                &&& surr_opt_view(bomb_surroundings) == run.3
            }),
        decreases cmds@.len() - i,
    {
        let cmd = cmds[i];
        proof {
            assert(cmds@.take(i as int + 1).drop_last() =~= cmds@.take(i as int));
            assert(cmds@.take(i as int + 1).last() == cmds@[i as int]);
        }
        match cmd {
            Commands::MoveBomberman { direction: _ } => {
                let _ = state.apply_to_game(uuid, &cmd, now);
            },
            Commands::PlantBomb => {
                let _ = state.apply_to_game(uuid, &cmd, now);
            },
            Commands::FetchSurrounding => {
                surrounding = match state.apply_to_game(uuid, &cmd, now) {
                    Some(CommandOutput::Surrounding(s)) => Some(s),
                    _ => None,
                };
            },
            Commands::FetchBombStatus => {
                bomb_status = match state.apply_to_game(uuid, &cmd, now) {
                    Some(CommandOutput::BombStatus(b)) => b,
                    _ => None,
                };
            },
            Commands::FetchBombSurroundings => {
                bomb_surroundings = match state.apply_to_game(uuid, &cmd, now) {
                    Some(CommandOutput::BombSurroundings(o)) => o,
                    _ => None,
                };
            },
        }
        i = i + 1;
    }
    proof {
        assert(cmds@.take(cmds@.len() as int) =~= spec_flatten(*chain));
    }
    (surrounding, bomb_status, bomb_surroundings)
}

} // verus!
