//! Player records and the directory the query side joins against.

use vstd::prelude::*;

verus! {

/// A registered player. The location id is a nullable grouping key for
/// the "nearby" leaderboard view.
pub struct Player {
    pub id: i32,
    pub username: String,
    pub steam_id: u64,
    pub location_id: Option<i32>,
}

impl Player {
    pub fn clone_player(&self) -> (r: Player)
        ensures
            r.id == self.id,
            r.username@ == self.username@,
            r.steam_id == self.steam_id,
            r.location_id == self.location_id,
    {
        Player {
            id: self.id,
            username: self.username.clone(),
            steam_id: self.steam_id,
            location_id: self.location_id,
        }
    }
}

/// All registered players, with unique internal and external ids.
pub struct PlayerDirectory {
    players: Vec<Player>,
}

impl PlayerDirectory {
    pub closed spec fn rows(self) -> Seq<Player> {
        self.players@
    }

    /// Internal ids and external (Steam) ids are both unique.
    pub open spec fn wf(self) -> bool {
        forall|i: int, j: int|
            0 <= i < j < self.rows().len() ==> (#[trigger] self.rows()[i]).id
                != (#[trigger] self.rows()[j]).id && self.rows()[i].steam_id
                != self.rows()[j].steam_id
    }

    /// Whether some registered player has internal id `id`.
    pub open spec fn spec_has_player(self, id: i32) -> bool {
        exists|i: int| 0 <= i < self.rows().len() && (#[trigger] self.rows()[i]).id == id
    }

    /// The registered player with internal id `id`, if any.
    pub open spec fn spec_player(self, id: i32) -> Player {
        self.rows()[choose|i: int| 0 <= i < self.rows().len() && (#[trigger] self.rows()[i]).id == id]
    }

    pub fn new() -> (r: PlayerDirectory)
        ensures
            r.wf(),
            r.rows() == Seq::<Player>::empty(),
    {
        PlayerDirectory { players: Vec::new() }
    }

    /// Register a player. Rejected (returns false) when either id is taken.
    pub fn add_player(&mut self, p: Player) -> (added: bool)
        requires
            old(self).wf(),
        ensures
            final(self).wf(),
            added == !(exists|i: int|
                0 <= i < old(self).rows().len() && ((#[trigger] old(self).rows()[i]).id == p.id
                    || old(self).rows()[i].steam_id == p.steam_id)),
            final(self).rows() == if added {
                old(self).rows().push(p)
            } else {
                old(self).rows()
            },
    {
        let n = self.players.len();
        let mut i: usize = 0;
        while i < n
            invariant
                self.players@ == old(self).players@,
                self.wf(),
                n == self.players@.len(),
                0 <= i <= n,
                forall|k: int|
                    0 <= k < i ==> (#[trigger] self.players@[k]).id != p.id
                        && self.players@[k].steam_id != p.steam_id,
            decreases n - i,
        {
            if self.players[i].id == p.id || self.players[i].steam_id == p.steam_id {
                proof {
                    assert((old(self).rows()[i as int]).id == self.players@[i as int].id);
                }
                return false;
            }
            i += 1;
        }
        self.players.push(p);
        true
    }

    /// Look a player up by internal id.
    pub fn lookup(&self, id: i32) -> (r: Option<&Player>)
        requires
            self.wf(),
        ensures
            r is Some <==> self.spec_has_player(id),
            r is Some ==> r->0.id == id && *r->0 == self.spec_player(id),
    {
        let n = self.players.len();
        let mut i: usize = 0;
        while i < n
            invariant
                self.wf(),
                n == self.players@.len(),
                0 <= i <= n,
                forall|k: int| 0 <= k < i ==> (#[trigger] self.players@[k]).id != id,
            decreases n - i,
        {
            if self.players[i].id == id {
                return Some(&self.players[i]);
            }
            i += 1;
        }
        None
    }

    /// Whether some registered player has this external (Steam) id.
    pub open spec fn spec_has_steam(self, steam_id: u64) -> bool {
        exists|i: int| 0 <= i < self.rows().len() && (#[trigger] self.rows()[i]).steam_id == steam_id
    }

    /// The registered player with this external (Steam) id, if any.
    pub open spec fn spec_by_steam(self, steam_id: u64) -> Player {
        self.rows()[choose|i: int|
            0 <= i < self.rows().len() && (#[trigger] self.rows()[i]).steam_id == steam_id]
    }

    /// Look a player up by external (Steam) id.
    pub fn find_by_steam_id(&self, steam_id: u64) -> (r: Option<&Player>)
        requires
            self.wf(),
        ensures
            r is Some <==> self.spec_has_steam(steam_id),
            r is Some ==> r->0.steam_id == steam_id && *r->0 == self.spec_by_steam(steam_id),
    {
        let n = self.players.len();
        let mut i: usize = 0;
        while i < n
            invariant
                self.wf(),
                n == self.players@.len(),
                0 <= i <= n,
                forall|k: int| 0 <= k < i ==> (#[trigger] self.players@[k]).steam_id != steam_id,
            decreases n - i,
        {
            if self.players[i].steam_id == steam_id {
                return Some(&self.players[i]);
            }
            i += 1;
        }
        None
    }
}

} // verus!
