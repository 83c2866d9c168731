//! One session's game state: the cell grid, the player, and the bomb.

use vstd::prelude::*;
use vstd::string::StrSliceExecFns;

verus! {

/// What a single grid cell holds. Cells are fixed once the grid is built,
/// except that a blast may demolish a `Brick` or `Ghost` into `Empty`.
#[derive(Clone, Copy, Debug, PartialEq, Eq, Structural)]
pub enum Cell {
    Empty,
    Wall,
    Brick,
    OpenGate,
    /// Impassable, exactly like a wall, until some future rule reveals it.
    HiddenGate,
    Ghoul,
}

/// Errors raised while building a game from a level template.
#[derive(Clone, Copy, Debug, PartialEq, Eq, Structural)]
pub enum GameError {
    /// The template holds an unrecognized character, or no player marker.
    InvalidTemplate,
}

/// One player's full game state.
///
/// The grid is row-major and possibly ragged: row `r` holds cells for
/// columns `0..landscape[r].len()`, and coordinates beyond a row's end are
/// absent, which every operation treats exactly like out-of-bounds.
#[derive(Debug)]
pub struct Game {
    /// Length of the longest template row.
    pub width: usize,
    /// Number of template rows.
    pub height: usize,
    /// The cells, indexed `landscape[row][col]`.
    pub landscape: Vec<Vec<Cell>>,
    /// Seconds at session creation.
    pub started: i64,
    /// Seconds at the last state change.
    pub updated: i64,
    /// The player's current coordinate `(row, col)`.
    pub bomberman: (usize, usize),
    /// False once the player has reached an open gate or a ghost.
    pub active: bool,
    /// Chebyshev radius of the surroundings window.
    pub surrounding_size: usize,
    /// At most one armed bomb: `(planted_at, position)`.
    pub bomb: Option<(i64, (usize, usize))>,
}

/// The mathematical model of a [`Game`].
#[verifier::ext_equal]
pub struct GameV {
    pub width: int,
    pub height: int,
    pub landscape: Seq<Seq<Cell>>,
    pub started: int,
    pub updated: int,
    pub bomberman: (int, int),
    pub active: bool,
    pub surrounding_size: int,
    pub bomb: Option<(int, (int, int))>,
}

impl View for Game {
    type V = GameV;

    open spec fn view(&self) -> GameV {
        GameV {
            width: self.width as int,
            height: self.height as int,
            landscape: self.landscape@.map_values(|row: Vec<Cell>| row@),
            started: self.started as int,
            updated: self.updated as int,
            bomberman: (self.bomberman.0 as int, self.bomberman.1 as int),
            active: self.active,
            surrounding_size: self.surrounding_size as int,
            bomb: match self.bomb {
                None => None,
                Some((t, p)) => Some((t as int, (p.0 as int, p.1 as int))),
            },
        }
    }
}

impl GameV {
    /// The cell at `(r, c)`, or `None` where the coordinate is out of range
    /// or absent from a ragged row.
    pub open spec fn cell_at(self, r: int, c: int) -> Option<Cell> {
        if 0 <= r < self.landscape.len() && 0 <= c < self.landscape[r].len() {
            Some(self.landscape[r][c])
        } else {
            None
        }
    }

    /// A coordinate the player may stand on: present, and neither a wall
    /// nor a brick.
    pub open spec fn standable(self, r: int, c: int) -> bool {
        match self.cell_at(r, c) {
            Some(cell) => cell != Cell::Wall && cell != Cell::Brick,
            None => false,
        }
    }

    /// Well-formedness: the cached dimensions match the grid, and the player
    /// stands on a passable, present cell; an armed bomb sits on a present
    /// cell (it was the player's cell when planted).
    pub open spec fn wf(self) -> bool {
        &&& self.height == self.landscape.len()
        &&& forall|r: int| 0 <= r < self.landscape.len() ==> #[trigger] self.landscape[r].len() <= self.width
        &&& self.standable(self.bomberman.0, self.bomberman.1)
        &&& match self.bomb {
            None => true,
            Some((t, p)) => self.cell_at(p.0, p.1) is Some,
        }
    }
}

/// Seconds between arming a bomb and its detonation.
pub const FUSE_SECONDS: i64 = 4;

/// One of the four axis directions a move can take.
#[derive(Clone, Copy, Debug, PartialEq, Eq, Structural)]
pub enum Direction {
    Up,
    Down,
    Left,
    Right,
}

/// The canonical unit offset of each direction, `(row, col)`.
pub open spec fn offset_of(direction: Direction) -> (int, int) {
    match direction {
        Direction::Up => (-1, 0),
        Direction::Down => (1, 0),
        Direction::Left => (0, -1),
        Direction::Right => (0, 1),
    }
}

/// One movement attempt. Ended runs and moves toward absent or impassable
/// cells change nothing; a move into `Empty` shifts the player; a move into
/// `OpenGate` or `Ghoul` shifts the player and ends the run.
pub open spec fn spec_mv(g: GameV, direction: Direction, now: int) -> GameV {
    if !g.active {
        g
    } else {
        let nr = g.bomberman.0 + offset_of(direction).0;
        let nc = g.bomberman.1 + offset_of(direction).1;
        match g.cell_at(nr, nc) {
            Some(Cell::Empty) => GameV { bomberman: (nr, nc), updated: now, ..g },
            Some(Cell::OpenGate) | Some(Cell::Ghoul) => GameV {
                bomberman: (nr, nc),
                updated: now,
                active: false,
                ..g
            },
            _ => g,
        }
    }
}

/// Demolition of one cell: a present `Brick` or `Ghoul` becomes `Empty`;
/// any other coordinate is left alone.
pub open spec fn spec_demolish(g: GameV, p: (int, int), now: int) -> GameV {
    match g.cell_at(p.0, p.1) {
        Some(Cell::Brick) | Some(Cell::Ghoul) => GameV {
            landscape: g.landscape.update(p.0, g.landscape[p.0].update(p.1, Cell::Empty)),
            updated: now,
            ..g
        },
        _ => g,
    }
}

/// The blast check: once the fuse has elapsed, the four diagonal-pattern
/// cells around the planting coordinate are demolished in a fixed order and
/// the bomb disarms; before that, nothing happens.
pub open spec fn spec_blast(g: GameV, now: int) -> GameV {
    match g.bomb {
        None => g,
        Some((planted, p)) => if now - planted >= FUSE_SECONDS {
            let g1 = spec_demolish(g, (p.0, p.1 + 1), now);
            let g2 = spec_demolish(g1, (p.0 + 1, p.1 + 1), now);
            let g3 = spec_demolish(g2, (p.0, p.1 - 1), now);
            let g4 = spec_demolish(g3, (p.0 - 1, p.1 - 1), now);
            GameV { bomb: None, ..g4 }
        } else {
            g
        },
    }
}

/// Planting: the blast check runs first; then, if no bomb is armed, one is
/// armed at the player's position. A second plant while one is armed is a
/// no-op.
pub open spec fn spec_plant(g: GameV, now: int) -> GameV {
    let g1 = spec_blast(g, now);
    match g1.bomb {
        None => GameV { bomb: Some((now, g1.bomberman)), ..g1 },
        Some(b) => g1,
    }
}

/// A movement command as submitted from the boundary: one movement attempt,
/// followed by the opportunistic blast check.
pub open spec fn spec_move_cmd(g: GameV, direction: Direction, now: int) -> GameV {
    spec_blast(spec_mv(g, direction, now), now)
}

/// Every occupied coordinate near the player, bucketed by cell kind.
#[derive(Clone, Debug)]
pub struct Surroundings {
    pub bricks: Vec<(usize, usize)>,
    pub wall: Vec<(usize, usize)>,
    pub bombermans: Vec<(usize, usize)>,
    pub ghosts: Vec<(usize, usize)>,
    pub gates: Vec<(usize, usize)>,
}

/// The mathematical model of a [`Surroundings`] report.
#[verifier::ext_equal]
pub struct SurroundingsV {
    pub bricks: Seq<(int, int)>,
    pub wall: Seq<(int, int)>,
    pub bombermans: Seq<(int, int)>,
    pub ghosts: Seq<(int, int)>,
    pub gates: Seq<(int, int)>,
}

/// A coordinate list as a sequence of mathematical pairs.
pub open spec fn coords_view(v: Seq<(usize, usize)>) -> Seq<(int, int)> {
    v.map_values(|p: (usize, usize)| (p.0 as int, p.1 as int))
}

/// Appending a coordinate commutes with taking the mathematical view.
proof fn lemma_coords_view_push(v: Seq<(usize, usize)>, p: (usize, usize))
    ensures
        coords_view(v.push(p)) == coords_view(v).push((p.0 as int, p.1 as int)),
{
    assert(coords_view(v.push(p)) =~= coords_view(v).push((p.0 as int, p.1 as int)));
}

impl View for Surroundings {
    type V = SurroundingsV;

    open spec fn view(&self) -> SurroundingsV {
        SurroundingsV {
            bricks: coords_view(self.bricks@),
            wall: coords_view(self.wall@),
            bombermans: coords_view(self.bombermans@),
            ghosts: coords_view(self.ghosts@),
            gates: coords_view(self.gates@),
        }
    }
}

/// The coordinates in row `r`, columns `c_lo..c_lo + n`, whose cell is
/// `kind`, in increasing column order.
pub open spec fn row_matches(g: GameV, kind: Cell, r: int, c_lo: int, n: nat) -> Seq<(int, int)>
    decreases n,
{
    if n == 0 {
        Seq::empty()
    } else {
        let prev = row_matches(g, kind, r, c_lo, (n - 1) as nat);
        let c = c_lo + n - 1;
        if g.cell_at(r, c) == Some(kind) {
            prev.push((r, c))
        } else {
            prev
        }
    }
}

/// The coordinates in rows `r_lo..r_lo + m`, columns `c_lo..c_lo + n`,
/// whose cell is `kind`, in row-major order.
pub open spec fn window_matches(
    g: GameV,
    kind: Cell,
    r_lo: int,
    m: nat,
    c_lo: int,
    n: nat,
) -> Seq<(int, int)>
    decreases m,
{
    if m == 0 {
        Seq::empty()
    } else {
        window_matches(g, kind, r_lo, (m - 1) as nat, c_lo, n) + row_matches(
            g,
            kind,
            r_lo + m - 1,
            c_lo,
            n,
        )
    }
}

/// The surroundings report for the window of Chebyshev radius
/// `g.surrounding_size` around `center`, clipped to the grid bounds.
/// The player's own coordinate is always reported in `bombermans`.
pub open spec fn spec_window(g: GameV, center: (int, int)) -> SurroundingsV {
    let s = g.surrounding_size;
    let h_lo = if center.0 - s > 0 { center.0 - s } else { 0 };
    let h_hi = if center.0 + s < g.height - 1 { center.0 + s } else { g.height - 1 };
    let w_lo = if center.1 - s > 0 { center.1 - s } else { 0 };
    let w_hi = if center.1 + s < g.width - 1 { center.1 + s } else { g.width - 1 };
    let m = (h_hi - h_lo + 1) as nat;
    let n = (w_hi - w_lo + 1) as nat;
    SurroundingsV {
        bricks: window_matches(g, Cell::Brick, h_lo, m, w_lo, n),
        wall: window_matches(g, Cell::Wall, h_lo, m, w_lo, n),
        bombermans: seq![g.bomberman],
        ghosts: window_matches(g, Cell::Ghoul, h_lo, m, w_lo, n),
        gates: window_matches(g, Cell::OpenGate, h_lo, m, w_lo, n),
    }
}

/// The surroundings report around the player's current position.
pub open spec fn spec_surrounding(g: GameV) -> SurroundingsV {
    spec_window(g, g.bomberman)
}

impl Game {
    /// The position of the armed bomb, if one is armed.
    pub fn bomb_status(&self) -> (r: Option<BombStatus>)
        ensures
            match (r, self@.bomb) {
                (Some(b), Some((t, p))) => (b.coords.0 as int, b.coords.1 as int) == p,
                (None, None) => true,
                _ => false,
            },
    {
        match self.bomb {
            Some((_, coords)) => Some(BombStatus { coords }),
            None => None,
        }
    }

    /// Scan the window of Chebyshev radius `surrounding_size` around
    /// `center`, clipped to the grid bounds, bucketing every occupied
    /// coordinate by cell kind.
    fn window(&self, center: (usize, usize)) -> (r: Surroundings)
        requires
            self@.wf(),
            self@.cell_at(center.0 as int, center.1 as int) is Some,
        ensures
            r@ == spec_window(self@, (center.0 as int, center.1 as int)),
    {
        let ghost g = self@;
        let ghost icenter = (center.0 as int, center.1 as int);
        let s = self.surrounding_size;
        let h_lo = if center.0 > s {
            center.0 - s
        } else {
            0
        };
        let h_hi = if self.height - 1 - center.0 > s {
            center.0 + s
        } else {
            self.height - 1
        };
        let w_lo = if center.1 > s {
            center.1 - s
        } else {
            0
        };
        let w_hi = if self.width - 1 - center.1 > s {
            center.1 + s
        } else {
            self.width - 1
        };
        let ghost m = (h_hi - h_lo + 1) as nat;
        let ghost n = (w_hi - w_lo + 1) as nat;
        let mut result = Surroundings {
            bricks: Vec::new(),
            wall: Vec::new(),
            bombermans: vec![self.bomberman],
            ghosts: Vec::new(),
            gates: Vec::new(),
        };
        let mut h = h_lo;
        while h <= h_hi
            invariant
                self@ == g,
                g.wf(),
                0 <= h_lo <= h <= h_hi + 1,
                h_hi < g.height,
                w_lo <= w_hi < g.width,
                m == h_hi - h_lo + 1,
                n == w_hi - w_lo + 1,
                coords_view(result.bricks@) == window_matches(g, Cell::Brick, h_lo as int, (h - h_lo) as nat, w_lo as int, n),
                coords_view(result.wall@) == window_matches(g, Cell::Wall, h_lo as int, (h - h_lo) as nat, w_lo as int, n),
                coords_view(result.ghosts@) == window_matches(g, Cell::Ghoul, h_lo as int, (h - h_lo) as nat, w_lo as int, n),
                coords_view(result.gates@) == window_matches(g, Cell::OpenGate, h_lo as int, (h - h_lo) as nat, w_lo as int, n),
                result.bombermans@ == seq![(self.bomberman.0, self.bomberman.1)],
            decreases h_hi + 1 - h,
        {
            let mut w = w_lo;
            while w <= w_hi
                invariant
                    self@ == g,
                    g.wf(),
                    0 <= h_lo <= h <= h_hi,
                    h_hi < g.height,
                    0 <= w_lo <= w <= w_hi + 1,
                    w_hi < g.width,
                    m == h_hi - h_lo + 1,
                    n == w_hi - w_lo + 1,
                    coords_view(result.bricks@) == window_matches(g, Cell::Brick, h_lo as int, (h - h_lo) as nat, w_lo as int, n) + row_matches(g, Cell::Brick, h as int, w_lo as int, (w - w_lo) as nat),
                    coords_view(result.wall@) == window_matches(g, Cell::Wall, h_lo as int, (h - h_lo) as nat, w_lo as int, n) + row_matches(g, Cell::Wall, h as int, w_lo as int, (w - w_lo) as nat),
                    coords_view(result.ghosts@) == window_matches(g, Cell::Ghoul, h_lo as int, (h - h_lo) as nat, w_lo as int, n) + row_matches(g, Cell::Ghoul, h as int, w_lo as int, (w - w_lo) as nat),
                    coords_view(result.gates@) == window_matches(g, Cell::OpenGate, h_lo as int, (h - h_lo) as nat, w_lo as int, n) + row_matches(g, Cell::OpenGate, h as int, w_lo as int, (w - w_lo) as nat),
                    result.bombermans@ == seq![(self.bomberman.0, self.bomberman.1)],
                decreases w_hi + 1 - w,
            {
                if h < self.landscape.len() && w < self.landscape[h].len() {
                    match self.landscape[h][w] {
                        Cell::Brick => {
                            let ghost pre = result.bricks@;
                            result.bricks.push((h, w));
                            proof {
                                lemma_coords_view_push(pre, (h, w));
                            }
                        },
                        Cell::Wall => {
                            let ghost pre = result.wall@;
                            result.wall.push((h, w));
                            proof {
                                lemma_coords_view_push(pre, (h, w));
                            }
                        },
                        Cell::OpenGate => {
                            let ghost pre = result.gates@;
                            result.gates.push((h, w));
                            proof {
                                lemma_coords_view_push(pre, (h, w));
                            }
                        },
                        Cell::Ghoul => {
                            let ghost pre = result.ghosts@;
                            result.ghosts.push((h, w));
                            proof {
                                lemma_coords_view_push(pre, (h, w));
                            }
                        },
                        _ => {},
                    }
                }
                proof {
                    let prev = (w - w_lo) as nat;
                    assert forall|kind: Cell| true implies #[trigger] row_matches(g, kind, h as int, w_lo as int, (prev + 1) as nat) == if g.cell_at(h as int, w as int) == Some(kind) {
                        row_matches(g, kind, h as int, w_lo as int, prev).push((h as int, w as int))
                    } else {
                        row_matches(g, kind, h as int, w_lo as int, prev)
                    } by {
                        assert(w_lo + (prev + 1) - 1 == w as int);
                    }
                    assert(coords_view(result.bricks@) =~= window_matches(g, Cell::Brick, h_lo as int, (h - h_lo) as nat, w_lo as int, n) + row_matches(g, Cell::Brick, h as int, w_lo as int, (prev + 1) as nat));
                    assert(coords_view(result.wall@) =~= window_matches(g, Cell::Wall, h_lo as int, (h - h_lo) as nat, w_lo as int, n) + row_matches(g, Cell::Wall, h as int, w_lo as int, (prev + 1) as nat));
                    assert(coords_view(result.ghosts@) =~= window_matches(g, Cell::Ghoul, h_lo as int, (h - h_lo) as nat, w_lo as int, n) + row_matches(g, Cell::Ghoul, h as int, w_lo as int, (prev + 1) as nat));
                    assert(coords_view(result.gates@) =~= window_matches(g, Cell::OpenGate, h_lo as int, (h - h_lo) as nat, w_lo as int, n) + row_matches(g, Cell::OpenGate, h as int, w_lo as int, (prev + 1) as nat));
                }
                w = w + 1;
            }
            proof {
                let rows = (h - h_lo) as nat;
                assert forall|kind: Cell| true implies #[trigger] window_matches(g, kind, h_lo as int, (rows + 1) as nat, w_lo as int, n) == window_matches(g, kind, h_lo as int, rows, w_lo as int, n) + row_matches(g, kind, h as int, w_lo as int, n) by {
                    assert(h_lo + (rows + 1) - 1 == h as int);
                }
            }
            h = h + 1;
        }
        proof {
            assert(result@ =~= spec_window(g, icenter));
        }
        result
    }

    /// The surroundings report around the player's current position.
    /// A pure read: deterministic for a fixed session state.
    pub fn surrounding(&self) -> (r: Surroundings)
        requires
            self@.wf(),
        ensures
            r@ == spec_surrounding(self@),
    {
        self.window(self.bomberman)
    }

    /// The surroundings report around the armed bomb's position, or
    /// nothing when no bomb is armed.
    pub fn bomb_surrounding(&self) -> (r: Option<Surroundings>)
        requires
            self@.wf(),
        ensures
            match (r, self@.bomb) {
                (Some(s), Some((t, p))) => s@ == spec_window(self@, p),
                (None, None) => true,
                _ => false,
            },
    {
        match self.bomb {
            None => None,
            Some((_, coords)) => Some(self.window(coords)),
        }
    }

    /// Attempt one move at time `now`. No clock is consulted and no rate
    /// limit applies: the transition is a function of the state, the
    /// direction and `now` alone.
    pub fn mv(&mut self, direction: Direction, now: i64)
        requires
            old(self)@.wf(),
        ensures
            final(self)@ == spec_mv(old(self)@, direction, now as int),
            final(self)@.wf(),
    {
        if !self.active {
            return;
        }
        let pos = self.bomberman;
        let candidate: Option<(usize, usize)> = match direction {
            Direction::Up => if pos.0 > 0 {
                Some((pos.0 - 1, pos.1))
            } else {
                None
            },
            Direction::Down => if pos.0 < usize::MAX {
                Some((pos.0 + 1, pos.1))
            } else {
                None
            },
            Direction::Left => if pos.1 > 0 {
                Some((pos.0, pos.1 - 1))
            } else {
                None
            },
            Direction::Right => if pos.1 < usize::MAX {
                Some((pos.0, pos.1 + 1))
            } else {
                None
            },
        };
        if let Some((nr, nc)) = candidate {
            if nr < self.landscape.len() && nc < self.landscape[nr].len() {
                match self.landscape[nr][nc] {
                    Cell::Empty => {
                        self.bomberman = (nr, nc);
                        self.updated = now;
                    },
                    Cell::OpenGate | Cell::Ghoul => {
                        self.bomberman = (nr, nc);
                        self.updated = now;
                        self.active = false;
                    },
                    _ => {},
                }
            }
        }
        assert(self@ =~= spec_mv(old(self)@, direction, now as int));
    }

    /// Demolish the cell at `(r, c)` if it is a present `Brick` or `Ghoul`.
    fn demolish(&mut self, r: usize, c: usize, now: i64)
        requires
            old(self)@.wf(),
        ensures
            final(self)@ == spec_demolish(old(self)@, (r as int, c as int), now as int),
            final(self)@.wf(),
    {
        if r < self.landscape.len() && c < self.landscape[r].len() {
            match self.landscape[r][c] {
                Cell::Brick | Cell::Ghoul => {
                    self.landscape[r][c] = Cell::Empty;
                    self.updated = now;
                },
                _ => {},
            }
        }
        assert(self@ =~= spec_demolish(old(self)@, (r as int, c as int), now as int));
    }

    /// The blast check at time `now`: detonate the armed bomb once its fuse
    /// has elapsed.
    pub fn blast(&mut self, now: i64)
        requires
            old(self)@.wf(),
        ensures
            final(self)@ == spec_blast(old(self)@, now as int),
            final(self)@.wf(),
    {
        match self.bomb {
            None => {},
            Some((planted, coords)) => {
                if (now as i128) - (planted as i128) >= FUSE_SECONDS as i128 {
                    let (pr, pc) = coords;
                    if pc < usize::MAX {
                        self.demolish(pr, pc + 1, now);
                        if pr < usize::MAX {
                            self.demolish(pr + 1, pc + 1, now);
                        }
                    }
                    if pc > 0 {
                        self.demolish(pr, pc - 1, now);
                        if pr > 0 {
                            self.demolish(pr - 1, pc - 1, now);
                        }
                    }
                    self.bomb = None;
                    assert(self@ =~= spec_blast(old(self)@, now as int));
                }
            },
        }
    }

    /// Move up at the current wall-clock time, then run the blast check.
    pub fn bomberman_up(&mut self)
        requires
            old(self)@.wf(),
        ensures
            final(self)@.wf(),
            exists|now: int| final(self)@ == spec_move_cmd(old(self)@, Direction::Up, now),
    {
        let now = now_seconds();
        self.mv(Direction::Up, now);
        self.blast(now);
        assert(self@ == spec_move_cmd(old(self)@, Direction::Up, now as int));
    }

    /// Move down at the current wall-clock time, then run the blast check.
    pub fn bomberman_down(&mut self)
        requires
            old(self)@.wf(),
        ensures
            final(self)@.wf(),
            exists|now: int| final(self)@ == spec_move_cmd(old(self)@, Direction::Down, now),
    {
        let now = now_seconds();
        self.mv(Direction::Down, now);
        self.blast(now);
        assert(self@ == spec_move_cmd(old(self)@, Direction::Down, now as int));
    }

    /// Move left at the current wall-clock time, then run the blast check.
    pub fn bomberman_left(&mut self)
        requires
            old(self)@.wf(),
        ensures
            final(self)@.wf(),
            exists|now: int| final(self)@ == spec_move_cmd(old(self)@, Direction::Left, now),
    {
        let now = now_seconds();
        self.mv(Direction::Left, now);
        self.blast(now);
        assert(self@ == spec_move_cmd(old(self)@, Direction::Left, now as int));
    }

    /// Move right at the current wall-clock time, then run the blast check.
    pub fn bomberman_right(&mut self)
        requires
            old(self)@.wf(),
        ensures
            final(self)@.wf(),
            exists|now: int| final(self)@ == spec_move_cmd(old(self)@, Direction::Right, now),
    {
        let now = now_seconds();
        self.mv(Direction::Right, now);
        self.blast(now);
        assert(self@ == spec_move_cmd(old(self)@, Direction::Right, now as int));
    }

    /// Plant a bomb at the current wall-clock time.
    pub fn plant_bomb(&mut self)
        requires
            old(self)@.wf(),
        ensures
            final(self)@.wf(),
            exists|now: int| final(self)@ == spec_plant(old(self)@, now),
    {
        let now = now_seconds();
        self.plant(now);
        assert(self@ == spec_plant(old(self)@, now as int));
    }

    /// Plant a bomb at time `now`: the blast check runs first, then a bomb
    /// is armed at the player's position unless one is already armed.
    pub fn plant(&mut self, now: i64)
        requires
            old(self)@.wf(),
        ensures
            final(self)@ == spec_plant(old(self)@, now as int),
            final(self)@.wf(),
    {
        self.blast(now);
        match self.bomb {
            None => {
                self.bomb = Some((now, self.bomberman));
                assert(self@ =~= spec_plant(old(self)@, now as int));
            },
            Some(_) => {},
        }
    }
}

/// Where the armed bomb sits, as reported to a status query.
#[derive(Clone, Copy, Debug, PartialEq, Eq)]
pub struct BombStatus {
    pub coords: (usize, usize),
}

/// Chebyshev radius of the surroundings window a new game is built with.
pub const SURROUNDING_SIZE: usize = 7;

/// Length of the longest row of a template.
pub open spec fn max_row_len(rows: Seq<Seq<char>>) -> int
    decreases rows.len(),
{
    if rows.len() == 0 {
        0
    } else {
        let rest = max_row_len(rows.drop_last());
        if rows.last().len() > rest {
            rows.last().len() as int
        } else {
            rest
        }
    }
}

/// Every character of the row is part of the template alphabet.
pub open spec fn row_ok(row: Seq<char>) -> bool {
    forall|c: int|
        0 <= c < row.len() ==> crate::templates::spec_cell_from_char(#[trigger] row[c])
            != crate::templates::LandscapeFromChar::Unknown
}

/// A template this library accepts: every character is recognized, and a
/// player marker is present somewhere.
pub open spec fn template_ok(rows: Seq<Seq<char>>) -> bool {
    &&& forall|r: int| 0 <= r < rows.len() ==> row_ok(#[trigger] rows[r])
    &&& last_marker(rows) is Some
}

/// The column of the last player marker of the row, if any.
pub open spec fn row_last_marker(row: Seq<char>) -> Option<int>
    decreases row.len(),
{
    if row.len() == 0 {
        None
    } else if crate::templates::spec_cell_from_char(row.last())
        == crate::templates::LandscapeFromChar::Bomber {
        Some(row.len() - 1)
    } else {
        row_last_marker(row.drop_last())
    }
}

/// The position of the last player marker of the template in row-major
/// scan order, if any.
pub open spec fn last_marker(rows: Seq<Seq<char>>) -> Option<(int, int)>
    decreases rows.len(),
{
    if rows.len() == 0 {
        None
    } else {
        match row_last_marker(rows.last()) {
            Some(c) => Some((rows.len() - 1, c)),
            None => last_marker(rows.drop_last()),
        }
    }
}

/// Relies on chrono's `Utc::now` and `DateTime::timestamp` for the current
/// wall-clock time in whole seconds since the Unix epoch. `Utc::now` aborts
/// on a machine whose clock is set before the epoch; nothing is promised of
/// the value, and every caller holds for every value that could come back.
#[verifier::external_body]
pub(crate) fn now_seconds() -> i64 {
    chrono::Utc::now().timestamp()
}

/// Build a game from the textual rows of a level template.
///
/// The template may be ragged: a row shorter than the widest one leaves
/// the missing coordinates absent from the grid. Construction fails, and
/// changes nothing, when some character is not part of the template
/// alphabet or no player marker is present.
pub fn new(template: &[&str]) -> (r: Result<Game, GameError>)
    ensures
        ({
            let rows = template@.map_values(|s: &str| s@);
            match r {
                Ok(g) => {
                    &&& template_ok(rows)
                    &&& g@.wf()
                    &&& g@.height == rows.len()
                    &&& g@.width == max_row_len(rows)
                    &&& g@.landscape.len() == rows.len()
                    &&& forall|i: int|
                        0 <= i < rows.len() ==> #[trigger] g@.landscape[i].len() == rows[i].len()
                    &&& forall|i: int, j: int|
                        0 <= i < rows.len() && 0 <= j < rows[i].len()
                            ==> #[trigger] g@.landscape[i][j] == crate::templates::cell_of_char(
                            rows[i][j],
                        )
                    &&& last_marker(rows) == Some(g@.bomberman)
                    &&& g@.active
                    &&& g@.bomb is None
                    &&& g@.surrounding_size == SURROUNDING_SIZE
                    &&& g@.started == g@.updated
                },
                Err(e) => {
                    &&& e == GameError::InvalidTemplate
                    &&& !template_ok(rows)
                },
            }
        }),
{
    let ghost rows = template@.map_values(|s: &str| s@);
    let mut landscape: Vec<Vec<Cell>> = Vec::new();
    let mut width: usize = 0;
    let mut bomber: Option<(usize, usize)> = None;
    let mut h: usize = 0;
    while h < template.len()
        invariant
            rows == template@.map_values(|s: &str| s@),
            0 <= h <= template.len(),
            rows.len() == template.len(),
            landscape@.len() == h,
            width == max_row_len(rows.take(h as int)),
            forall|i: int| 0 <= i < h ==> #[trigger] landscape@[i]@.len() == rows[i].len(),
            forall|i: int| 0 <= i < h ==> #[trigger] landscape@[i]@.len() <= width,
            forall|i: int, j: int|
                0 <= i < h && 0 <= j < rows[i].len() ==> #[trigger] landscape@[i]@[j]
                    == crate::templates::cell_of_char(rows[i][j]),
            forall|i: int| 0 <= i < h ==> row_ok(#[trigger] rows[i]),
            match bomber {
                None => last_marker(rows.take(h as int)) is None,
                Some(p) => {
                    &&& last_marker(rows.take(h as int)) == Some((p.0 as int, p.1 as int))
                    &&& p.0 < h
                    &&& p.1 < rows[p.0 as int].len()
                    &&& crate::templates::spec_cell_from_char(rows[p.0 as int][p.1 as int])
                        == crate::templates::LandscapeFromChar::Bomber
                },
            },
        decreases template.len() - h,
    {
        let row: &str = template[h];
        proof {
            assert(rows[h as int] == row@);
        }
        let row_len = row.unicode_len();
        if row_len > width {
            width = row_len;
        }
        let mut cells: Vec<Cell> = Vec::new();
        let ghost bomber0 = bomber;
        let mut w: usize = 0;
        while w < row_len
            invariant
                rows == template@.map_values(|s: &str| s@),
                rows.len() == template.len(),
                0 <= (h as int) < rows.len(),
                rows[h as int] == row@,
                row_len == row@.len(),
                0 <= w <= row_len,
                cells@.len() == w,
                forall|j: int|
                    0 <= j < w ==> #[trigger] cells@[j] == crate::templates::cell_of_char(
                        row@[j],
                    ),
                forall|j: int|
                    0 <= j < w ==> crate::templates::spec_cell_from_char(#[trigger] row@[j])
                        != crate::templates::LandscapeFromChar::Unknown,
                match row_last_marker(row@.take(w as int)) {
                    Some(c) => bomber == Some((h, c as usize)) && 0 <= c < w,
                    None => bomber == bomber0,
                },
                match bomber {
                    None => true,
                    Some(p) => {
                        &&& p.0 <= h
                        &&& (p.0 < h ==> p.1 < rows[p.0 as int].len())
                        &&& (p.0 == h ==> p.1 < w)
                        &&& crate::templates::spec_cell_from_char(rows[p.0 as int][p.1 as int])
                            == crate::templates::LandscapeFromChar::Bomber
                    },
                },
            decreases row_len - w,
        {
            let ch = row.get_char(w);
            let ghost prefix = row@.take(w as int);
            match crate::templates::cell_from_char(ch) {
                crate::templates::LandscapeFromChar::Land { cell } => {
                    cells.push(cell);
                },
                crate::templates::LandscapeFromChar::Bomber => {
                    bomber = Some((h, w));
                    cells.push(Cell::Empty);
                },
                crate::templates::LandscapeFromChar::Unknown => {
                    proof {
                        assert(!row_ok(rows[h as int]));
                        assert(!template_ok(rows));
                    }
                    return Err(GameError::InvalidTemplate);
                },
            }
            proof {
                assert(row@.take(w as int + 1).drop_last() =~= prefix);
                assert(row@.take(w as int + 1).last() == row@[w as int]);
            }
            w = w + 1;
        }
        landscape.push(cells);
        proof {
            assert(row@.take(row_len as int) =~= row@);
            assert(rows.take(h as int + 1).drop_last() =~= rows.take(h as int));
            assert(rows.take(h as int + 1).last() == rows[h as int]);
        }
        h = h + 1;
    }
    proof {
        assert(rows.take(template.len() as int) =~= rows);
    }
    match bomber {
        None => Err(GameError::InvalidTemplate),
        Some(pos) => {
            let now = now_seconds();
            let g = Game {
                width,
                height: template.len(),
                landscape,
                started: now,
                updated: now,
                bomberman: pos,
                active: true,
                surrounding_size: SURROUNDING_SIZE,
                bomb: None,
            };
            proof {
                assert(g@.standable(g@.bomberman.0, g@.bomberman.1));
            }
            Ok(g)
        },
    }
}

/// Law: a move toward a wall or a brick changes nothing; in particular it
/// never changes the player's position.
pub proof fn lemma_move_into_blocked_is_noop(g: GameV, direction: Direction, now: int)
    requires
        ({
            let nr = g.bomberman.0 + offset_of(direction).0;
            let nc = g.bomberman.1 + offset_of(direction).1;
            g.cell_at(nr, nc) == Some(Cell::Wall) || g.cell_at(nr, nc) == Some(Cell::Brick)
        }),
    ensures
        spec_mv(g, direction, now) == g,
{
}

/// Law: a move into an empty cell shifts the player by exactly the
/// requested unit offset, refreshes the update time, and changes nothing
/// else.
pub proof fn lemma_move_into_empty_moves(g: GameV, direction: Direction, now: int)
    requires
        g.active,
        ({
            let nr = g.bomberman.0 + offset_of(direction).0;
            let nc = g.bomberman.1 + offset_of(direction).1;
            g.cell_at(nr, nc) == Some(Cell::Empty)
        }),
    ensures
        spec_mv(g, direction, now) == (GameV {
            bomberman: (
                g.bomberman.0 + offset_of(direction).0,
                g.bomberman.1 + offset_of(direction).1,
            ),
            updated: now,
            ..g
        }),
{
}

/// Law: a move into an open gate or a ghost shifts the player there and
/// ends the run.
pub proof fn lemma_move_into_gate_or_ghoul_ends_run(g: GameV, direction: Direction, now: int)
    requires
        g.active,
        ({
            let nr = g.bomberman.0 + offset_of(direction).0;
            let nc = g.bomberman.1 + offset_of(direction).1;
            g.cell_at(nr, nc) == Some(Cell::OpenGate) || g.cell_at(nr, nc) == Some(Cell::Ghoul)
        }),
    ensures
        !spec_mv(g, direction, now).active,
        spec_mv(g, direction, now).bomberman == (
            g.bomberman.0 + offset_of(direction).0,
            g.bomberman.1 + offset_of(direction).1,
        ),
{
}

/// Demolition never touches the player, the run flag, or the bomb.
pub proof fn lemma_demolish_preserves_player(g: GameV, p: (int, int), now: int)
    ensures
        spec_demolish(g, p, now).bomberman == g.bomberman,
        spec_demolish(g, p, now).active == g.active,
        spec_demolish(g, p, now).bomb == g.bomb,
{
}

/// The blast check never touches the player or the run flag.
pub proof fn lemma_blast_preserves_player(g: GameV, now: int)
    ensures
        spec_blast(g, now).bomberman == g.bomberman,
        spec_blast(g, now).active == g.active,
{
}

/// A sequence of movement commands, each taken at its own time.
pub open spec fn run_moves(g: GameV, steps: Seq<(Direction, int)>) -> GameV
    decreases steps.len(),
{
    if steps.len() == 0 {
        g
    } else {
        spec_move_cmd(run_moves(g, steps.drop_last()), steps.last().0, steps.last().1)
    }
}

/// Law: once the run has ended, every later movement command is a no-op on
/// the player, permanently: the position never changes again and the run
/// never resumes, whatever directions and times follow.
pub proof fn lemma_ended_run_moves_forever_noop(g: GameV, steps: Seq<(Direction, int)>)
    requires
        !g.active,
    ensures
        run_moves(g, steps).bomberman == g.bomberman,
        !run_moves(g, steps).active,
    decreases steps.len(),
{
    if steps.len() > 0 {
        lemma_ended_run_moves_forever_noop(g, steps.drop_last());
        let mid = run_moves(g, steps.drop_last());
        assert(spec_mv(mid, steps.last().0, steps.last().1) == mid);
        lemma_blast_preserves_player(mid, steps.last().1);
    }
}

/// Law: planting while a bomb is armed and its fuse has not yet elapsed
/// changes nothing; in particular it neither moves nor re-times the armed
/// bomb.
pub proof fn lemma_replant_while_armed_is_noop(g: GameV, now: int)
    requires
        (g.bomb matches Some((planted, p)) && now - planted < FUSE_SECONDS),
    ensures
        spec_plant(g, now) == g,
{
}

/// The four cells of the blast pattern around a planting coordinate `p`.
pub open spec fn in_blast_pattern(p: (int, int), q: (int, int)) -> bool {
    ||| q == (p.0, p.1 + 1)
    ||| q == (p.0 + 1, p.1 + 1)
    ||| q == (p.0, p.1 - 1)
    ||| q == (p.0 - 1, p.1 - 1)
}

/// How one demolition changes each cell of the grid.
pub proof fn lemma_demolish_cell_at(g: GameV, p: (int, int), now: int)
    ensures
        forall|q: (int, int)|
            #[trigger] spec_demolish(g, p, now).cell_at(q.0, q.1) == if q == p {
                match g.cell_at(p.0, p.1) {
                    Some(Cell::Brick) | Some(Cell::Ghoul) => Some(Cell::Empty),
                    other => other,
                }
            } else {
                g.cell_at(q.0, q.1)
            },
{
    let d = spec_demolish(g, p, now);
    assert forall|q: (int, int)| true implies #[trigger] d.cell_at(q.0, q.1) == if q == p {
        match g.cell_at(p.0, p.1) {
            Some(Cell::Brick) | Some(Cell::Ghoul) => Some(Cell::Empty),
            other => other,
        }
    } else {
        g.cell_at(q.0, q.1)
    } by {
        match g.cell_at(p.0, p.1) {
            Some(Cell::Brick) | Some(Cell::Ghoul) => {
                assert(d.landscape == g.landscape.update(
                    p.0,
                    g.landscape[p.0].update(p.1, Cell::Empty),
                ));
                if q.0 != p.0 {
                    assert(d.cell_at(q.0, q.1) == g.cell_at(q.0, q.1));
                } else if q.1 != p.1 {
                    assert(d.cell_at(q.0, q.1) == g.cell_at(q.0, q.1));
                }
            },
            _ => {},
        }
    }
}

/// Law: once the fuse has elapsed, the next blast check demolishes exactly
/// the blast-pattern cells that held a brick or a ghost, leaves every other
/// cell as it was, and disarms the bomb.
pub proof fn lemma_blast_after_fuse(g: GameV, now: int)
    requires
        (g.bomb matches Some((planted, p)) && now - planted >= FUSE_SECONDS),
    ensures
        (spec_blast(g, now).bomb is None),
        forall|q: (int, int)|
            in_blast_pattern(g.bomb->Some_0.1, q) ==> #[trigger] spec_blast(g, now).cell_at(
                q.0,
                q.1,
            ) == (match g.cell_at(q.0, q.1) {
                Some(Cell::Brick) | Some(Cell::Ghoul) => Some(Cell::Empty),
                other => other,
            }),
        forall|q: (int, int)|
            !in_blast_pattern(g.bomb->Some_0.1, q) ==> #[trigger] spec_blast(g, now).cell_at(
                q.0,
                q.1,
            ) == g.cell_at(q.0, q.1),
        spec_blast(g, now).bomberman == g.bomberman,
        spec_blast(g, now).active == g.active,
{
    let (planted, p) = g.bomb->Some_0;
    let g1 = spec_demolish(g, (p.0, p.1 + 1), now);
    let g2 = spec_demolish(g1, (p.0 + 1, p.1 + 1), now);
    let g3 = spec_demolish(g2, (p.0, p.1 - 1), now);
    let g4 = spec_demolish(g3, (p.0 - 1, p.1 - 1), now);
    lemma_demolish_cell_at(g, (p.0, p.1 + 1), now);
    lemma_demolish_cell_at(g1, (p.0 + 1, p.1 + 1), now);
    lemma_demolish_cell_at(g2, (p.0, p.1 - 1), now);
    lemma_demolish_cell_at(g3, (p.0 - 1, p.1 - 1), now);
    assert(spec_blast(g, now) == GameV { bomb: None, ..g4 });
}

} // verus!
