//! The session registry: the authoritative store of shared state.
//!
//! One registry holds the append-only game list, the connection→game map,
//! and the connection→nickname map (whose entries double as the set of
//! nicknames in use).  It is created once at server start and mutated only
//! by the single data-manager worker, so every operation here can assume it
//! has the registry to itself.

use vstd::prelude::*;
use vstd::string::StringExecFns;
use crate::game_objects::{GameState, GameView};
use crate::numbers::{dec_str, u64_to_string};

verus! {

/// Specification-level image of the registry.
#[verifier::ext_equal]
pub ghost struct RegistryView {
    pub games: Seq<GameView>,
    pub conn_game: Seq<(u32, u32)>,
    pub nicks: Seq<(u32, Seq<char>)>,
}

impl RegistryView {
    pub open spec fn has_conn(self, id: u32) -> bool {
        exists|i: int| 0 <= i < self.conn_game.len() && self.conn_game[i].0 == id
    }

    pub open spec fn conn_index(self, id: u32) -> int {
        choose|i: int| 0 <= i < self.conn_game.len() && self.conn_game[i].0 == id
    }

    /// The game a connection is in.
    pub open spec fn game_of(self, id: u32) -> u32 {
        self.conn_game[self.conn_index(id)].1
    }

    pub open spec fn has_nick_for(self, id: u32) -> bool {
        exists|i: int| 0 <= i < self.nicks.len() && self.nicks[i].0 == id
    }

    pub open spec fn nick_index(self, id: u32) -> int {
        choose|i: int| 0 <= i < self.nicks.len() && self.nicks[i].0 == id
    }

    /// The nickname registered for a connection.
    pub open spec fn nick_of(self, id: u32) -> Seq<char> {
        self.nicks[self.nick_index(id)].1
    }

    /// Whether some connection already holds this nickname.
    pub open spec fn nick_taken(self, n: Seq<char>) -> bool {
        exists|i: int| 0 <= i < self.nicks.len() && self.nicks[i].1 == n
    }

    /// The connection→game entries after mapping `id` to `gid`: the
    /// existing entry is re-pointed, or a new entry appended.
    pub open spec fn conn_game_with(self, id: u32, gid: u32) -> Seq<(u32, u32)> {
        if self.has_conn(id) {
            self.conn_game.update(self.conn_index(id), (id, gid))
        } else {
            self.conn_game.push((id, gid))
        }
    }

    /// Registry invariant: connection ids are unique in both maps, every
    /// mapped game id is in range, and the game list is indexed by game id
    /// with every game playable.
    pub open spec fn wf(self) -> bool {
        &&& forall|i: int, j: int|
            0 <= i < j < self.conn_game.len() ==> self.conn_game[i].0 != self.conn_game[j].0
        &&& forall|i: int|
            0 <= i < self.conn_game.len() ==> (#[trigger] self.conn_game[i].1 as int)
                < self.games.len()
        &&& forall|i: int, j: int|
            0 <= i < j < self.nicks.len() ==> self.nicks[i].0 != self.nicks[j].0
        &&& forall|i: int|
            0 <= i < self.games.len() ==> (#[trigger] self.games[i]).well_formed()
                && self.games[i].game_id as int == i && self.games[i].seats_consistent()
    }
}

/// With unique connection ids, an entry holding `id` is the entry the
/// lookup functions speak of.
pub proof fn lemma_conn_entry_unique(r: RegistryView, id: u32, i: int)
    requires
        r.wf(),
        0 <= i < r.conn_game.len(),
        r.conn_game[i].0 == id,
    ensures
        r.has_conn(id),
        r.conn_index(id) == i,
        r.game_of(id) == r.conn_game[i].1,
{
    assert(r.has_conn(id));
    let j = r.conn_index(id);
    assert(0 <= j < r.conn_game.len() && r.conn_game[j].0 == id);
}

/// With unique connection ids, a nickname entry holding `id` is the entry
/// the lookup functions speak of.
pub proof fn lemma_nick_entry_unique(r: RegistryView, id: u32, i: int)
    requires
        r.wf(),
        0 <= i < r.nicks.len(),
        r.nicks[i].0 == id,
    ensures
        r.has_nick_for(id),
        r.nick_index(id) == i,
        r.nick_of(id) == r.nicks[i].1,
{
    assert(r.has_nick_for(id));
    let j = r.nick_index(id);
    assert(0 <= j < r.nicks.len() && r.nicks[j].0 == id);
}

/// Appending a nickname entry for an unregistered connection keeps the
/// registry well formed.
pub proof fn lemma_wf_push_nick(r0: RegistryView, r1: RegistryView, id: u32, n: Seq<char>)
    requires
        r0.wf(),
        !r0.has_nick_for(id),
        r1.games == r0.games,
        r1.conn_game == r0.conn_game,
        r1.nicks == r0.nicks.push((id, n)),
    ensures
        r1.wf(),
{
    assert forall|k: int, l: int|
        0 <= k < l < r1.nicks.len() implies r1.nicks[k].0 != r1.nicks[l].0 by {
        if l == r1.nicks.len() - 1 {
            assert(r1.nicks[k] == r0.nicks[k]);
            if r0.nicks[k].0 == id {
                assert(r0.has_nick_for(id));
            }
        } else {
            assert(r1.nicks[k] == r0.nicks[k] && r1.nicks[l] == r0.nicks[l]);
        }
    }
}

/// Re-pointing an existing connection→game entry at an in-range game
/// keeps the registry well formed.
pub proof fn lemma_wf_update_conn(r0: RegistryView, r1: RegistryView, id: u32, gid: u32, i: int)
    requires
        r0.wf(),
        0 <= i < r0.conn_game.len(),
        r0.conn_game[i].0 == id,
        (gid as int) < r0.games.len(),
        r1.games == r0.games,
        r1.nicks == r0.nicks,
        r1.conn_game == r0.conn_game.update(i, (id, gid)),
    ensures
        r1.wf(),
{
    assert forall|k: int|
        0 <= k < r1.conn_game.len() implies r1.conn_game[k].0 == r0.conn_game[k].0 by {}
    assert forall|k: int|
        0 <= k < r1.conn_game.len() implies (#[trigger] r1.conn_game[k].1 as int)
            < r1.games.len() by {
        if k != i {
            assert(r1.conn_game[k] == r0.conn_game[k]);
        }
    }
}

/// Appending a connection→game entry for an unmapped connection keeps the
/// registry well formed.
pub proof fn lemma_wf_push_conn(r0: RegistryView, r1: RegistryView, id: u32, gid: u32)
    requires
        r0.wf(),
        !r0.has_conn(id),
        (gid as int) < r0.games.len(),
        r1.games == r0.games,
        r1.nicks == r0.nicks,
        r1.conn_game == r0.conn_game.push((id, gid)),
    ensures
        r1.wf(),
{
    assert forall|k: int, l: int|
        0 <= k < l < r1.conn_game.len() implies r1.conn_game[k].0 != r1.conn_game[l].0 by {
        if l == r1.conn_game.len() - 1 {
            assert(r1.conn_game[k] == r0.conn_game[k]);
            if r0.conn_game[k].0 == id {
                assert(r0.has_conn(id));
            }
        } else {
            assert(r1.conn_game[k] == r0.conn_game[k] && r1.conn_game[l] == r0.conn_game[l]);
        }
    }
    assert forall|k: int|
        0 <= k < r1.conn_game.len() implies (#[trigger] r1.conn_game[k].1 as int)
            < r1.games.len() by {
        if k < r1.conn_game.len() - 1 {
            assert(r1.conn_game[k] == r0.conn_game[k]);
        }
    }
}

/// Removing a nickname entry keeps the registry well formed.
pub proof fn lemma_wf_remove_nick(r0: RegistryView, r1: RegistryView, i: int)
    requires
        r0.wf(),
        0 <= i < r0.nicks.len(),
        r1.games == r0.games,
        r1.conn_game == r0.conn_game,
        r1.nicks == r0.nicks.remove(i),
    ensures
        r1.wf(),
{
    assert forall|k: int, l: int|
        0 <= k < l < r1.nicks.len() implies r1.nicks[k].0 != r1.nicks[l].0 by {
        let k0 = if k < i { k } else { k + 1 };
        let l0 = if l < i { l } else { l + 1 };
        assert(r1.nicks[k] == r0.nicks[k0]);
        assert(r1.nicks[l] == r0.nicks[l0]);
    }
}

/// Removing a connection→game entry keeps the registry well formed.
pub proof fn lemma_wf_remove_conn(r0: RegistryView, r1: RegistryView, i: int)
    requires
        r0.wf(),
        0 <= i < r0.conn_game.len(),
        r1.games == r0.games,
        r1.nicks == r0.nicks,
        r1.conn_game == r0.conn_game.remove(i),
    ensures
        r1.wf(),
{
    assert forall|k: int, l: int|
        0 <= k < l < r1.conn_game.len() implies r1.conn_game[k].0 != r1.conn_game[l].0 by {
        let k0 = if k < i { k } else { k + 1 };
        let l0 = if l < i { l } else { l + 1 };
        assert(r1.conn_game[k] == r0.conn_game[k0]);
        assert(r1.conn_game[l] == r0.conn_game[l0]);
    }
    assert forall|k: int|
        0 <= k < r1.conn_game.len() implies (#[trigger] r1.conn_game[k].1 as int)
            < r1.games.len() by {
        let k0 = if k < i { k } else { k + 1 };
        assert(r1.conn_game[k] == r0.conn_game[k0]);
    }
}

/// Appending a fresh game under the next game id keeps the registry well
/// formed.
pub proof fn lemma_wf_push_game(r0: RegistryView, r1: RegistryView, g: GameView)
    requires
        r0.wf(),
        g.well_formed(),
        g.game_id as int == r0.games.len(),
        g.seats_consistent(),
        r1.games == r0.games.push(g),
        r1.conn_game == r0.conn_game,
        r1.nicks == r0.nicks,
    ensures
        r1.wf(),
{
    assert forall|k: int|
        0 <= k < r1.games.len() implies (#[trigger] r1.games[k]).well_formed()
            && r1.games[k].game_id as int == k && r1.games[k].seats_consistent() by {
        if k < r0.games.len() {
            assert(r1.games[k] == r0.games[k]);
        } else {
            assert(r1.games[k] == g);
        }
    }
    assert forall|k: int|
        0 <= k < r1.conn_game.len() implies (#[trigger] r1.conn_game[k].1 as int)
            < r1.games.len() by {
        assert((r0.conn_game[k].1 as int) < r0.games.len());
    }
    assert forall|k: int, l: int|
        0 <= k < l < r1.conn_game.len() implies r1.conn_game[k].0 != r1.conn_game[l].0 by {
        assert(r0.conn_game[k].0 != r0.conn_game[l].0);
    }
    assert forall|k: int, l: int|
        0 <= k < l < r1.nicks.len() implies r1.nicks[k].0 != r1.nicks[l].0 by {
        assert(r0.nicks[k].0 != r0.nicks[l].0);
    }
}

/// Replacing one game with a well-formed game under the same id keeps the
/// registry well formed.
pub proof fn lemma_wf_update_game(r0: RegistryView, r1: RegistryView, i: int, g: GameView)
    requires
        r0.wf(),
        0 <= i < r0.games.len(),
        g.well_formed(),
        g.game_id == r0.games[i].game_id,
        g.seats_consistent(),
        r1.games == r0.games.update(i, g),
        r1.conn_game == r0.conn_game,
        r1.nicks == r0.nicks,
    ensures
        r1.wf(),
{
    assert forall|k: int|
        0 <= k < r1.games.len() implies (#[trigger] r1.games[k]).well_formed()
            && r1.games[k].game_id as int == k && r1.games[k].seats_consistent() by {
        if k != i {
            assert(r1.games[k] == r0.games[k]);
        } else {
            assert(r1.games[k] == g);
        }
    }
    assert forall|k: int|
        0 <= k < r1.conn_game.len() implies (#[trigger] r1.conn_game[k].1 as int)
            < r1.games.len() by {
        assert((r0.conn_game[k].1 as int) < r0.games.len());
    }
    assert forall|k: int, l: int|
        0 <= k < l < r1.conn_game.len() implies r1.conn_game[k].0 != r1.conn_game[l].0 by {
        assert(r0.conn_game[k].0 != r0.conn_game[l].0);
    }
    assert forall|k: int, l: int|
        0 <= k < l < r1.nicks.len() implies r1.nicks[k].0 != r1.nicks[l].0 by {
        assert(r0.nicks[k].0 != r0.nicks[l].0);
    }
}

/// The authoritative store of games, connections and nicknames.
pub struct SessionRegistry {
    pub games: Vec<GameState>,
    pub conn_game: Vec<(u32, u32)>,
    pub nicks: Vec<(u32, String)>,
}

impl View for SessionRegistry {
    type V = RegistryView;

    open spec fn view(&self) -> RegistryView {
        RegistryView {
            games: self.games@.map_values(|g: GameState| g@),
            conn_game: self.conn_game@,
            nicks: self.nicks@.map_values(|p: (u32, String)| (p.0, p.1@)),
        }
    }
}

impl SessionRegistry {
    /// An empty registry, as the server starts with.
    pub fn new() -> (r: SessionRegistry)
        ensures
            r@.games =~= Seq::<GameView>::empty(),
            r@.conn_game =~= Seq::<(u32, u32)>::empty(),
            r@.nicks =~= Seq::<(u32, Seq<char>)>::empty(),
            r@.wf(),
    {
        let r = SessionRegistry { games: Vec::new(), conn_game: Vec::new(), nicks: Vec::new() };
        proof {
            assert(r@.games =~= Seq::<GameView>::empty());
            assert(r@.nicks =~= Seq::<(u32, Seq<char>)>::empty());
        }
        r
    }

    /// Index of the connection→game entry for `id`, if any.
    fn conn_entry(&self, id: u32) -> (r: Option<usize>)
        ensures
            r matches Some(i) ==> i < self@.conn_game.len() && self@.conn_game[i as int].0 == id,
            r is None ==> !self@.has_conn(id),
    {
        let mut i: usize = 0;
        while i < self.conn_game.len()
            invariant
                i <= self@.conn_game.len(),
                self.conn_game@.len() == self@.conn_game.len(),
                forall|j: int| 0 <= j < i ==> self@.conn_game[j].0 != id,
            decreases self@.conn_game.len() - i,
        {
            if self.conn_game[i].0 == id {
                return Some(i);
            }
            i = i + 1;
        }
        None
    }

    /// Index of the connection→nickname entry for `id`, if any.
    fn nick_entry(&self, id: u32) -> (r: Option<usize>)
        ensures
            r matches Some(i) ==> i < self@.nicks.len() && self@.nicks[i as int].0 == id,
            r is None ==> !self@.has_nick_for(id),
    {
        let mut i: usize = 0;
        while i < self.nicks.len()
            invariant
                i <= self@.nicks.len(),
                self.nicks@.len() == self@.nicks.len(),
                forall|j: int| 0 <= j < i ==> self@.nicks[j].0 != id,
            decreases self@.nicks.len() - i,
        {
            if self.nicks[i].0 == id {
                proof {
                    assert(self@.nicks[i as int].0 == id);
                }
                return Some(i);
            }
            i = i + 1;
        }
        None
    }

    /// Whether this connection has a registered nickname.
    pub fn is_registered(&self, id: u32) -> (r: bool)
        ensures
            r == self@.has_nick_for(id),
    {
        match self.nick_entry(id) {
            Some(i) => {
                proof {
                    assert(self@.has_nick_for(id));
                }
                true
            },
            None => false,
        }
    }

    /// Whether this connection is mapped to a game.
    pub fn is_in_game(&self, id: u32) -> (r: bool)
        ensures
            r == self@.has_conn(id),
    {
        match self.conn_entry(id) {
            Some(i) => {
                proof {
                    assert(self@.has_conn(id));
                }
                true
            },
            None => false,
        }
    }

    /// Whether some connected client already holds this nickname.
    pub fn nick_in_use(&self, nick: &String) -> (r: bool)
        ensures
            r == self@.nick_taken(nick@),
    {
        let mut i: usize = 0;
        while i < self.nicks.len()
            invariant
                i <= self@.nicks.len(),
                self.nicks@.len() == self@.nicks.len(),
                forall|j: int| 0 <= j < i ==> self@.nicks[j].1 != nick@,
            decreases self@.nicks.len() - i,
        {
            if self.nicks[i].1 == *nick {
                proof {
                    assert(self@.nicks[i as int].1 == nick@);
                }
                return true;
            }
            i = i + 1;
        }
        false
    }

    /// The nickname registered for `id`.
    pub fn nickname_of(&self, id: u32) -> (r: String)
        requires
            self@.wf(),
            self@.has_nick_for(id),
        ensures
            r@ == self@.nick_of(id),
    {
        let entry = self.nick_entry(id);
        proof {
            assert(entry is Some);
        }
        let i = entry.unwrap();
        proof {
            lemma_nick_entry_unique(self@, id, i as int);
        }
        self.nicks[i].1.clone()
    }

    /// The game id mapped for `id`.
    pub fn game_id_of(&self, id: u32) -> (r: u32)
        requires
            self@.wf(),
            self@.has_conn(id),
        ensures
            r == self@.game_of(id),
            (r as int) < self@.games.len(),
    {
        let entry = self.conn_entry(id);
        proof {
            assert(entry is Some);
        }
        let i = entry.unwrap();
        proof {
            lemma_conn_entry_unique(self@, id, i as int);
        }
        self.conn_game[i].1
    }

    /// Books a new connection in under the default nickname
    /// `user_<id>`.
    pub fn register_connection(&mut self, id: u32)
        requires
            old(self)@.wf(),
            !old(self)@.has_nick_for(id),
        ensures
            final(self)@.nicks == old(self)@.nicks.push(
                (id, "user_"@ + dec_str(id as nat)),
            ),
            final(self)@.games == old(self)@.games,
            final(self)@.conn_game == old(self)@.conn_game,
            final(self)@.wf(),
            final(self)@.has_nick_for(id),
            final(self)@.nick_of(id) == "user_"@ + dec_str(id as nat),
    {
        let mut nick = String::from_str("user_");
        nick.append(u64_to_string(id as u64).as_str());
        self.nicks.push((id, nick));
        proof {
            assert(self@.nicks =~= old(self)@.nicks.push((id, "user_"@ + dec_str(id as nat))));
            lemma_wf_push_nick(old(self)@, self@, id, "user_"@ + dec_str(id as nat));
            lemma_nick_entry_unique(self@, id, self@.nicks.len() - 1);
        }
    }

    /// Records a nickname entry for a connection that has none.
    pub fn push_nick(&mut self, id: u32, nick: String)
        requires
            old(self)@.wf(),
            !old(self)@.has_nick_for(id),
        ensures
            final(self)@.nicks == old(self)@.nicks.push((id, nick@)),
            final(self)@.games == old(self)@.games,
            final(self)@.conn_game == old(self)@.conn_game,
            final(self)@.wf(),
            final(self)@.has_nick_for(id),
            final(self)@.nick_of(id) == nick@,
            final(self)@.nick_taken(nick@),
    {
        let ghost n = nick@;
        self.nicks.push((id, nick));
        proof {
            assert(self@.nicks =~= old(self)@.nicks.push((id, n)));
            lemma_wf_push_nick(old(self)@, self@, id, n);
            lemma_nick_entry_unique(self@, id, self@.nicks.len() - 1);
            assert(self@.nicks[self@.nicks.len() - 1].1 == n);
        }
    }

    /// Removes and returns a connection's nickname entry, freeing the
    /// nickname for others.
    pub fn remove_nick(&mut self, id: u32) -> (r: String)
        requires
            old(self)@.wf(),
            old(self)@.has_nick_for(id),
        ensures
            r@ == old(self)@.nick_of(id),
            final(self)@.nicks == old(self)@.nicks.remove(old(self)@.nick_index(id)),
            final(self)@.games == old(self)@.games,
            final(self)@.conn_game == old(self)@.conn_game,
            final(self)@.wf(),
            !final(self)@.has_nick_for(id),
    {
        let entry = self.nick_entry(id);
        proof {
            assert(entry is Some);
        }
        let i = entry.unwrap();
        proof {
            lemma_nick_entry_unique(self@, id, i as int);
        }
        let removed = self.nicks.remove(i);
        proof {
            assert(self@.nicks =~= old(self)@.nicks.remove(i as int));
            lemma_wf_remove_nick(old(self)@, self@, i as int);
            assert forall|k: int| 0 <= k < self@.nicks.len() implies self@.nicks[k].0 != id by {
                if k < i {
                    assert(self@.nicks[k] == old(self)@.nicks[k]);
                } else {
                    assert(self@.nicks[k] == old(self)@.nicks[k + 1]);
                }
            }
        }
        removed.1
    }

    /// Maps a connection to a game, replacing any previous mapping.
    pub fn set_conn_game(&mut self, id: u32, gid: u32)
        requires
            old(self)@.wf(),
            (gid as int) < old(self)@.games.len(),
        ensures
            final(self)@.conn_game == old(self)@.conn_game_with(id, gid),
            final(self)@.games == old(self)@.games,
            final(self)@.nicks == old(self)@.nicks,
            final(self)@.wf(),
            final(self)@.has_conn(id),
            final(self)@.game_of(id) == gid,
    {
        let entry = self.conn_entry(id);
        match entry {
            Some(i) => {
                proof {
                    lemma_conn_entry_unique(self@, id, i as int);
                }
                self.conn_game[i] = (id, gid);
                proof {
                    lemma_wf_update_conn(old(self)@, self@, id, gid, i as int);
                    lemma_conn_entry_unique(self@, id, i as int);
                }
            },
            None => {
                self.conn_game.push((id, gid));
                proof {
                    lemma_wf_push_conn(old(self)@, self@, id, gid);
                    lemma_conn_entry_unique(self@, id, self@.conn_game.len() - 1);
                }
            },
        }
    }

    /// Clears a connection's game mapping, if any.
    pub fn remove_conn_game(&mut self, id: u32)
        requires
            old(self)@.wf(),
        ensures
            final(self)@.conn_game == if old(self)@.has_conn(id) {
                old(self)@.conn_game.remove(old(self)@.conn_index(id))
            } else {
                old(self)@.conn_game
            },
            final(self)@.games == old(self)@.games,
            final(self)@.nicks == old(self)@.nicks,
            final(self)@.wf(),
            !final(self)@.has_conn(id),
    {
        let entry = self.conn_entry(id);
        match entry {
            Some(i) => {
                proof {
                    lemma_conn_entry_unique(self@, id, i as int);
                }
                self.conn_game.remove(i);
                proof {
                    lemma_wf_remove_conn(old(self)@, self@, i as int);
                    assert forall|k: int|
                        0 <= k < self@.conn_game.len() implies self@.conn_game[k].0 != id by {
                        if k < i {
                            assert(self@.conn_game[k] == old(self)@.conn_game[k]);
                        } else {
                            assert(self@.conn_game[k] == old(self)@.conn_game[k + 1]);
                        }
                    }
                }
            },
            None => {},
        }
    }
}

} // verus!
