//! The bounded session store: games keyed by random identifiers, retained
//! in insertion order and evicted oldest-first once over capacity.

use vstd::prelude::*;

use std::collections::HashMap;

use crate::game::{Game, GameV};

verus! {

broadcast use vstd::std_specs::hash::group_hash_axioms;

/// The session store. Entries are created by insertion, mutated only
/// through [`State::apply_to_game`], and destroyed only by eviction.
pub struct State {
    /// Live games by identifier.
    pub games: HashMap<u128, Game>,
    /// Identifiers in insertion order, oldest first.
    pub stack: Vec<u128>,
    /// How many games the store retains.
    pub size: usize,
}

/// The mathematical model of a [`State`].
#[verifier::ext_equal]
pub struct StateV {
    pub games: Map<u128, GameV>,
    pub stack: Seq<u128>,
    pub size: int,
}

impl View for State {
    type V = StateV;

    open spec fn view(&self) -> StateV {
        StateV {
            games: self.games@.map_values(|g: Game| g@),
            stack: self.stack@,
            size: self.size as int,
        }
    }
}

impl StateV {
    /// Well-formedness: the insertion-order sequence lists each live
    /// identifier exactly once, the map holds exactly those entries, every
    /// stored game is well-formed, and the store is at or under capacity.
    pub open spec fn wf(self) -> bool {
        &&& self.stack.no_duplicates()
        &&& self.games.dom() == self.stack.to_set()
        &&& forall|id: u128|
            self.games.dom().contains(id) ==> (#[trigger] self.games[id]).wf()
        &&& self.stack.len() <= self.size
    }
}

/// One session summary, as returned by [`State::list_games`].
#[derive(Clone, Copy, Debug, PartialEq, Eq, Structural)]
pub struct ActiveGame {
    pub uuid: u128,
    pub started: i64,
    pub updated: i64,
}

/// An empty store that retains at most `size` games.
pub fn new(size: usize) -> (r: State)
    ensures
        r@.games == Map::<u128, GameV>::empty(),
        r@.stack == Seq::<u128>::empty(),
        r@.size == size,
        r@.wf(),
{
    let r = State { games: HashMap::new(), stack: Vec::new(), size };
    proof {
        assert(r@.games =~= Map::<u128, GameV>::empty());
        assert(r@.games.dom() =~= r@.stack.to_set());
    }
    r
}

/// How an insertion changes the store. A fresh identifier is appended and
/// the oldest entries are evicted until the store is back at capacity; an
/// identifier already live only has its game replaced, in place.
pub open spec fn spec_insert(s: StateV, id: u128, g: GameV) -> StateV {
    if s.stack.contains(id) {
        StateV { games: s.games.insert(id, g), ..s }
    } else {
        let pushed = s.stack.push(id);
        let inserted = s.games.insert(id, g);
        let d = if pushed.len() >= s.size {
            pushed.len() - s.size
        } else {
            0
        };
        StateV {
            games: inserted.remove_keys(pushed.take(d).to_set()),
            stack: pushed.skip(d),
            ..s
        }
    }
}

/// Inserting commutes with taking the store's mathematical view.
proof fn lemma_map_view_insert(m: Map<u128, Game>, k: u128, v: Game)
    ensures
        m.insert(k, v).map_values(|g: Game| g@) == m.map_values(|g: Game| g@).insert(k, v@),
{
    assert(m.insert(k, v).map_values(|g: Game| g@) =~= m.map_values(|g: Game| g@).insert(
        k,
        v@,
    ));
}

/// Removing commutes with taking the store's mathematical view.
proof fn lemma_map_view_remove(m: Map<u128, Game>, k: u128)
    ensures
        m.remove(k).map_values(|g: Game| g@) == m.map_values(|g: Game| g@).remove(k),
{
    assert(m.remove(k).map_values(|g: Game| g@) =~= m.map_values(|g: Game| g@).remove(k));
}

impl State {
    /// Insert `game` under the identifier `id`, then evict the oldest
    /// entries until the store is back at capacity.
    pub fn insert_with_id(&mut self, id: u128, game: Game)
        requires
            old(self)@.wf(),
            game@.wf(),
        ensures
            final(self)@ == spec_insert(old(self)@, id, game@),
            final(self)@.wf(),
    {
        let ghost s0 = self@;
        if self.games.contains_key(&id) {
            proof {
                assert(s0.games.dom().contains(id));
                assert(s0.stack.to_set().contains(id));
            }
            self.games.insert(id, game);
            proof {
                lemma_map_view_insert(old(self).games@, id, game);
                assert(self@ =~= spec_insert(s0, id, game@));
                assert(self@.games.dom() =~= s0.stack.to_set());
                assert forall|x: u128| self@.games.dom().contains(x) implies (
                #[trigger] self@.games[x]).wf() by {
                    if x != id {
                        assert(s0.games.dom().contains(x));
                    }
                }
                assert(self@.wf());
            }
            return;
        }
        proof {
            assert(!s0.games.dom().contains(id));
            assert(!s0.stack.to_set().contains(id));
            assert(!s0.stack.contains(id));
        }
        self.games.insert(id, game);
        self.stack.push(id);
        let ghost pushed = s0.stack.push(id);
        let ghost inserted = s0.games.insert(id, game@);
        proof {
            lemma_map_view_insert(old(self).games@, id, game);
            assert(pushed.no_duplicates());
        }
        let diff = if self.stack.len() >= self.size {
            self.stack.len() - self.size
        } else {
            0
        };
        proof {
            assert(pushed.take(0).to_set() =~= Set::<u128>::empty());
            assert(inserted.remove_keys(pushed.take(0).to_set()) =~= inserted);
        }
        let mut k: usize = 0;
        while k < diff
            invariant
                0 <= k <= diff,
                diff <= pushed.len(),
                pushed.no_duplicates(),
                self@.stack == pushed.skip(k as int),
                self@.games == inserted.remove_keys(pushed.take(k as int).to_set()),
                self@.size == s0.size,
            decreases diff - k,
        {
            let ghost raw_pre = self.games@;
            let ghost games_pre = self@.games;
            let victim = self.stack.remove(0);
            self.games.remove(&victim);
            proof {
                assert(victim == pushed[k as int]);
                assert(self@.stack =~= pushed.skip(k as int + 1));
                lemma_map_view_remove(raw_pre, victim);
                assert(pushed.take(k as int + 1) =~= pushed.take(k as int).push(victim));
                assert forall|x: u128| pushed.take(k as int + 1).to_set().contains(x)
                    <==> pushed.take(k as int).to_set().contains(x) || x == victim by {
                    let t = pushed.take(k as int + 1);
                    if t.to_set().contains(x) {
                        let i = choose|i: int| 0 <= i < t.len() && t[i] == x;
                        if i < k as int {
                            assert(pushed.take(k as int)[i] == x);
                        }
                    }
                    if pushed.take(k as int).to_set().contains(x) {
                        let i = choose|i: int|
                            0 <= i < pushed.take(k as int).len() && pushed.take(k as int)[i] == x;
                        assert(t[i] == x);
                    }
                    if x == victim {
                        assert(t[k as int] == x);
                    }
                }
                assert(self@.games =~= inserted.remove_keys(pushed.take(k as int + 1).to_set()));
            }
            k = k + 1;
        }
        proof {
            assert(self@ =~= spec_insert(s0, id, game@));
            lemma_skip_of_no_duplicates(pushed, diff as int);
            assert forall|x: u128| self@.games.dom().contains(x)
                <==> self@.stack.to_set().contains(x) by {
                let d = diff as int;
                assert(inserted.dom() =~= s0.stack.to_set().insert(id));
                if inserted.dom().contains(x) {
                    if x == id {
                        assert(pushed[pushed.len() - 1] == x);
                    } else {
                        assert(s0.stack.contains(x));
                        let i = choose|i: int| 0 <= i < s0.stack.len() && s0.stack[i] == x;
                        assert(pushed[i] == x);
                    }
                }
                if pushed.contains(x) {
                    let i = choose|i: int| 0 <= i < pushed.len() && pushed[i] == x;
                    if i < d {
                        assert(pushed.take(d)[i] == x);
                    } else {
                        assert(pushed.skip(d)[i - d] == x);
                    }
                    if i < s0.stack.len() {
                        assert(s0.stack[i] == x);
                    }
                }
                if pushed.take(d).to_set().contains(x) {
                    let i = choose|i: int| 0 <= i < d && pushed.take(d)[i] == x;
                    assert(pushed[i] == x);
                }
                if pushed.skip(d).to_set().contains(x) {
                    let i = choose|i: int| 0 <= i < pushed.len() - d && pushed.skip(d)[i] == x;
                    assert(pushed[i + d] == x);
                    if pushed.take(d).to_set().contains(x) {
                        let j = choose|j: int| 0 <= j < d && pushed.take(d)[j] == x;
                        assert(pushed[j] == x);
                        assert(false);
                    }
                }
            }
            assert(self@.games.dom() =~= self@.stack.to_set());
            assert forall|x: u128| self@.games.dom().contains(x) implies (
            #[trigger] self@.games[x]).wf() by {
                if x != id {
                    assert(s0.games.dom().contains(x));
                }
            }
            assert(self@.wf());
        }
    }
}

/// Relies on `uuid::Uuid::new_v4` and `Uuid::as_u128`: a freshly drawn
/// random 128-bit version-4 token. Nothing is promised of the value; in
/// particular uniqueness is only probabilistic, and the store handles a
/// repeated identifier by replacing that entry in place.
#[verifier::external_body]
fn fresh_id() -> u128 {
    uuid::Uuid::new_v4().as_u128()
}

impl State {
    /// Insert a game under a freshly drawn identifier, evict the oldest
    /// entries until the store is back at capacity, and return the
    /// identifier.
    pub fn insert_and_evict(&mut self, game: Game) -> (r: u128)
        requires
            old(self)@.wf(),
            game@.wf(),
        ensures
            final(self)@ == spec_insert(old(self)@, r, game@),
            final(self)@.wf(),
    {
        let id = fresh_id();
        self.insert_with_id(id, game);
        id
    }

    /// All live sessions, most recently inserted first. A pure read: it
    /// reflects eviction that has already happened and performs none.
    pub fn list_games(&self) -> (r: Vec<ActiveGame>)
        requires
            self@.wf(),
        ensures
            r@.len() == self@.stack.len(),
            forall|i: int|
                0 <= i < r@.len() ==> {
                    let id = self@.stack[self@.stack.len() - 1 - i];
                    &&& (#[trigger] r@[i]).uuid == id
                    &&& r@[i].started as int == self@.games[id].started
                    &&& r@[i].updated as int == self@.games[id].updated
                },
    {
        let mut result: Vec<ActiveGame> = Vec::new();
        let mut i: usize = self.stack.len();
        while i > 0
            invariant
                self@.wf(),
                0 <= i <= self@.stack.len(),
                result@.len() == self@.stack.len() - i,
                forall|j: int|
                    0 <= j < result@.len() ==> {
                        let id = self@.stack[self@.stack.len() - 1 - j];
                        &&& (#[trigger] result@[j]).uuid == id
                        &&& result@[j].started as int == self@.games[id].started
                        &&& result@[j].updated as int == self@.games[id].updated
                    },
            decreases i,
        {
            i = i - 1;
            let id = self.stack[i];
            proof {
                assert(self@.stack.to_set().contains(id));
                assert(self@.games.dom().contains(id));
            }
            match self.games.get(&id) {
                Some(game) => {
                    result.push(ActiveGame { uuid: id, started: game.started, updated: game.updated });
                },
                None => {
                    proof {
                        assert(false);
                    }
                },
            }
        }
        result
    }
}

/// Repeated insertion: the identifiers and games are taken in order,
/// oldest first.
pub open spec fn spec_insert_all(s: StateV, ids: Seq<u128>, gs: Seq<GameV>) -> StateV
    decreases ids.len(),
{
    if ids.len() == 0 {
        s
    } else {
        spec_insert(
            spec_insert_all(s, ids.drop_last(), gs.drop_last()),
            ids.last(),
            gs.last(),
        )
    }
}

/// Law: starting from an empty store, inserting `n` distinct identifiers
/// retains exactly the newest `min(n, capacity)` of them, in insertion
/// order; every older identifier is no longer live (so a lookup of it
/// finds nothing), and every retained one still is.
pub proof fn lemma_eviction_keeps_newest(s0: StateV, ids: Seq<u128>, gs: Seq<GameV>)
    requires
        s0.wf(),
        s0.stack.len() == 0,
        ids.no_duplicates(),
        gs.len() == ids.len(),
        forall|i: int| 0 <= i < gs.len() ==> (#[trigger] gs[i]).wf(),
    ensures
        ({
            let d = if ids.len() >= s0.size {
                ids.len() - s0.size
            } else {
                0
            };
            let t = spec_insert_all(s0, ids, gs);
            &&& t.wf()
            &&& t.size == s0.size
            &&& t.stack == ids.skip(d)
            &&& forall|i: int| 0 <= i < d ==> !t.games.dom().contains(#[trigger] ids[i])
            &&& forall|i: int| d <= i < ids.len() ==> t.games.dom().contains(#[trigger] ids[i])
        }),
    decreases ids.len(),
{
    let n = ids.len() as int;
    let d = if n >= s0.size {
        n - s0.size
    } else {
        0
    };
    let t = spec_insert_all(s0, ids, gs);
    if n == 0 {
        assert(t.stack =~= ids.skip(0));
    } else {
        let prev_ids = ids.drop_last();
        lemma_eviction_keeps_newest(s0, prev_ids, gs.drop_last());
        let prev = spec_insert_all(s0, prev_ids, gs.drop_last());
        let d_prev = if n - 1 >= s0.size {
            n - 1 - s0.size
        } else {
            0
        };
        let last = ids.last();
        assert(!prev.stack.contains(last)) by {
            if prev.stack.contains(last) {
                let j = choose|j: int| 0 <= j < prev.stack.len() && prev.stack[j] == last;
                assert(prev.stack[j] == prev_ids[d_prev + j]);
                assert(ids[d_prev + j] == ids[n - 1]);
                assert(false);
            }
        }
        let pushed = prev.stack.push(last);
        assert(pushed =~= ids.skip(d_prev));
        let d_step = if pushed.len() >= s0.size {
            pushed.len() - s0.size
        } else {
            0
        };
        assert(t.stack == pushed.skip(d_step));
        assert(t.stack =~= ids.skip(d));
        lemma_spec_insert_wf(prev, last, gs.last());
        assert forall|i: int| 0 <= i < d implies !t.games.dom().contains(
            #[trigger] ids[i],
        ) by {
            if t.games.dom().contains(ids[i]) {
                assert(t.stack.to_set().contains(ids[i]));
                let j = choose|j: int| 0 <= j < t.stack.len() && t.stack[j] == ids[i];
                assert(t.stack[j] == ids[d + j]);
                assert(false);
            }
        }
        assert forall|i: int| d <= i < n implies t.games.dom().contains(
            #[trigger] ids[i],
        ) by {
            assert(t.stack[i - d] == ids[i]);
            assert(t.stack.contains(ids[i]));
        }
    }
}

/// Inserting a fresh, well-formed game keeps the store well-formed.
pub proof fn lemma_spec_insert_wf(s: StateV, id: u128, g: GameV)
    requires
        s.wf(),
        g.wf(),
        !s.stack.contains(id),
    ensures
        spec_insert(s, id, g).wf(),
        spec_insert(s, id, g).size == s.size,
{
    let t = spec_insert(s, id, g);
    let pushed = s.stack.push(id);
    let inserted = s.games.insert(id, g);
    let d = if pushed.len() >= s.size {
        pushed.len() - s.size
    } else {
        0
    };
    assert(pushed.no_duplicates());
    lemma_skip_of_no_duplicates(pushed, d as int);
    assert forall|x: u128| t.games.dom().contains(x) <==> t.stack.to_set().contains(
        x,
    ) by {
        if inserted.dom().contains(x) {
            if x == id {
                assert(pushed[pushed.len() - 1] == x);
            } else {
                assert(s.stack.to_set().contains(x));
                let i = choose|i: int| 0 <= i < s.stack.len() && s.stack[i] == x;
                assert(pushed[i] == x);
            }
        }
        if pushed.contains(x) {
            let i = choose|i: int| 0 <= i < pushed.len() && pushed[i] == x;
            if i < d {
                assert(pushed.take(d as int)[i] == x);
            } else {
                assert(pushed.skip(d as int)[i - d] == x);
            }
            if i < s.stack.len() {
                assert(s.stack[i] == x);
            }
        }
        if pushed.take(d as int).to_set().contains(x) {
            let i = choose|i: int| 0 <= i < d && pushed.take(d as int)[i] == x;
            assert(pushed[i] == x);
            if pushed.skip(d as int).to_set().contains(x) {
                let j = choose|j: int|
                    0 <= j < pushed.len() - d && pushed.skip(d as int)[j] == x;
                assert(pushed[j + d] == x);
                assert(false);
            }
        }
        if pushed.skip(d as int).to_set().contains(x) {
            let i = choose|i: int| 0 <= i < pushed.len() - d && pushed.skip(d as int)[i] == x;
            assert(pushed[i + d] == x);
        }
    }
    assert(t.games.dom() =~= t.stack.to_set());
}

/// Dropping a prefix keeps a duplicate-free sequence duplicate-free.
proof fn lemma_skip_of_no_duplicates(s: Seq<u128>, d: int)
    requires
        0 <= d <= s.len(),
        s.no_duplicates(),
    ensures
        s.skip(d).no_duplicates(),
{
    assert forall|i: int, j: int|
        0 <= i < s.skip(d).len() && 0 <= j < s.skip(d).len() && i != j implies s.skip(d)[i]
        != s.skip(d)[j] by {
        assert(s.skip(d)[i] == s[d + i]);
        assert(s.skip(d)[j] == s[d + j]);
    }
}

} // verus!
