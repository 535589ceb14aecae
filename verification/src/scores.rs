//! The score store: each player's best score per (song, league), with
//! keep-best upsert semantics and invalidate-on-write cache discipline.

use vstd::prelude::*;
use crate::cache::{drop_song_league, LeaderboardCache};
use crate::game_types::{Character, League, Leaderboard};
use crate::players::Player;

verus! {

/// A stored score row. At most one row exists per
/// (player_id, song_id, league); a resubmission only replaces it when
/// the new score is strictly greater.
pub struct Score {
    pub id: i32,
    pub player_id: i32,
    pub song_id: i32,
    pub league: League,
    pub score: i32,
    pub vehicle: Character,
    /// The ordered feat tag list, kept in its comma-separated form.
    pub feats: String,
    pub track_shape: Vec<i32>,
    pub xstats: Vec<i32>,
    pub density: i32,
    pub song_length: i32,
    pub gold_threshold: i32,
    pub iss: i32,
    pub isj: i32,
    /// Seconds since the Unix epoch; refreshed only on an actual
    /// replacement, so reign duration can be computed from it.
    pub submitted_at: i64,
}

/// The two rows carry the same data (string and sequence fields
/// compared by content).
pub open spec fn score_like(a: Score, b: Score) -> bool {
    &&& a.id == b.id
    &&& a.player_id == b.player_id
    &&& a.song_id == b.song_id
    &&& a.league == b.league
    &&& a.score == b.score
    &&& a.vehicle == b.vehicle
    &&& a.feats@ == b.feats@
    &&& a.track_shape@ == b.track_shape@
    &&& a.xstats@ == b.xstats@
    &&& a.density == b.density
    &&& a.song_length == b.song_length
    &&& a.gold_threshold == b.gold_threshold
    &&& a.iss == b.iss
    &&& a.isj == b.isj
    &&& a.submitted_at == b.submitted_at
}

impl Score {
    pub fn clone_score(&self) -> (r: Score)
        ensures
            score_like(r, *self),
    {
        Score {
            id: self.id,
            player_id: self.player_id,
            song_id: self.song_id,
            league: self.league,
            score: self.score,
            vehicle: self.vehicle,
            feats: self.feats.clone(),
            track_shape: self.track_shape.clone(),
            xstats: self.xstats.clone(),
            density: self.density,
            song_length: self.song_length,
            gold_threshold: self.gold_threshold,
            iss: self.iss,
            isj: self.isj,
            submitted_at: self.submitted_at,
        }
    }
}

/// A submission before it is stored: everything a row holds except the
/// row id and the timestamp, which the store assigns.
pub struct NewScore {
    pub player_id: i32,
    pub song_id: i32,
    pub league: League,
    pub score: i32,
    pub vehicle: Character,
    pub feats: String,
    pub track_shape: Vec<i32>,
    pub xstats: Vec<i32>,
    pub density: i32,
    pub song_length: i32,
    pub gold_threshold: i32,
    pub iss: i32,
    pub isj: i32,
}

/// Read-only join of a score and its owning player, produced only by
/// query operations.
pub struct ScoreWithPlayer {
    pub score: Score,
    pub player: Player,
}

/// The row an existing one is replaced with when a strictly greater
/// score arrives: same row id, fresh attributes, fresh timestamp.
pub open spec fn replaced_row(old_row: Score, new: NewScore, now: i64) -> Score {
    Score {
        id: old_row.id,
        player_id: new.player_id,
        song_id: new.song_id,
        league: new.league,
        score: new.score,
        vehicle: new.vehicle,
        feats: new.feats,
        track_shape: new.track_shape,
        xstats: new.xstats,
        density: new.density,
        song_length: new.song_length,
        gold_threshold: new.gold_threshold,
        iss: new.iss,
        isj: new.isj,
        submitted_at: now,
    }
}

/// The row inserted for a first submission under the key.
pub open spec fn fresh_row(id: i32, new: NewScore, now: i64) -> Score {
    Score {
        id,
        player_id: new.player_id,
        song_id: new.song_id,
        league: new.league,
        score: new.score,
        vehicle: new.vehicle,
        feats: new.feats,
        track_shape: new.track_shape,
        xstats: new.xstats,
        density: new.density,
        song_length: new.song_length,
        gold_threshold: new.gold_threshold,
        iss: new.iss,
        isj: new.isj,
        submitted_at: now,
    }
}

/// What one upsert does to the stored (score, timestamp) of its key:
/// a first submission is stored as given; afterwards only a strictly
/// greater score replaces the pair, refreshing the timestamp.
pub open spec fn step(st: Option<(i32, i64)>, sub: (i32, i64)) -> Option<(i32, i64)> {
    match st {
        Option::None => Option::Some(sub),
        Option::Some(cur) => if sub.0 > cur.0 {
            Option::Some(sub)
        } else {
            Option::Some(cur)
        },
    }
}

/// The stored (score, timestamp) after a whole sequence of upserts on
/// one key, starting from no row.
pub open spec fn stored_after(subs: Seq<(i32, i64)>) -> Option<(i32, i64)>
    decreases subs.len(),
{
    if subs.len() == 0 {
        Option::None
    } else {
        step(stored_after(subs.drop_last()), subs.last())
    }
}

/// The index of the submission whose (score, timestamp) the store keeps:
/// the first submission that reached the maximum score of the sequence.
pub open spec fn champion_index(subs: Seq<(i32, i64)>) -> int
    decreases subs.len(),
{
    if subs.len() <= 1 {
        0
    } else {
        let c = champion_index(subs.drop_last());
        if subs.last().0 > subs.drop_last()[c].0 {
            subs.len() - 1
        } else {
            c
        }
    }
}

/// Best-score invariant: after any sequence of upserts on one key the
/// stored score is the maximum ever submitted, and the stored timestamp
/// is that of the first submission which reached that maximum.
pub proof fn lemma_best_score_invariant(subs: Seq<(i32, i64)>)
    requires
        subs.len() > 0,
    ensures
        0 <= champion_index(subs) < subs.len(),
        stored_after(subs) == Option::Some(subs[champion_index(subs)]),
        forall|j: int| 0 <= j < subs.len() ==> (#[trigger] subs[j]).0 <= subs[champion_index(subs)].0,
        forall|k: int| 0 <= k < champion_index(subs) ==> (#[trigger] subs[k]).0 < subs[champion_index(subs)].0,
    decreases subs.len(),
{
    if subs.len() == 1 {
        assert(stored_after(subs.drop_last()) is None);
    } else {
        lemma_best_score_invariant(subs.drop_last());
        let s = subs.drop_last();
        let c = champion_index(s);
        let w = champion_index(subs);
        assert(forall|j: int| 0 <= j < s.len() ==> #[trigger] subs[j] == s[j]);
        if subs.last().0 > s[c].0 {
            assert(w == subs.len() - 1);
            assert(subs[w] == subs.last());
        } else {
            assert(w == c);
        }
        assert forall|j: int| 0 <= j < subs.len() implies (#[trigger] subs[j]).0 <= subs[w].0 by {
            if j < subs.len() - 1 {
                assert(s[j].0 <= s[c].0);
            }
        }
        assert forall|k: int| 0 <= k < w implies (#[trigger] subs[k]).0 < subs[w].0 by {
            if k < subs.len() - 1 && k < c {
                assert(s[k].0 < s[c].0);
            }
        }
    }
}

/// Isolation under concurrent submission: two upserts for the same key
/// leave the same stored score whichever order they are serialized in,
/// and that score is the greater of the two (or the prior score, if it
/// beat both).
pub proof fn lemma_upsert_order_irrelevant(st: Option<(i32, i64)>, a: (i32, i64), b: (i32, i64))
    ensures
        step(step(st, a), b) is Some,
        (step(step(st, a), b)->0).0 == (step(step(st, b), a)->0).0,
        st is None ==> (step(step(st, a), b)->0).0 == if a.0 >= b.0 {
            a.0
        } else {
            b.0
        },
{
}

/// The score store. It exclusively owns score mutation; readers only
/// ever see it through query operations.
pub struct ScoreStore {
    rows: Vec<Score>,
    next_id: i32,
}

impl ScoreStore {
    pub closed spec fn rows(self) -> Seq<Score> {
        self.rows@
    }

    pub closed spec fn spec_next_id(self) -> i32 {
        self.next_id
    }

    /// Row keys are unique, row ids are unique and below the id counter,
    /// and every timestamp is a valid (non-negative) Unix second count.
    pub open spec fn wf(self) -> bool {
        &&& forall|i: int, j: int|
            0 <= i < j < self.rows().len() ==> !((#[trigger] self.rows()[i]).player_id
                == (#[trigger] self.rows()[j]).player_id && self.rows()[i].song_id
                == self.rows()[j].song_id && self.rows()[i].league == self.rows()[j].league)
        &&& forall|i: int, j: int|
            0 <= i < j < self.rows().len() ==> (#[trigger] self.rows()[i]).id
                != (#[trigger] self.rows()[j]).id
        &&& forall|i: int|
            0 <= i < self.rows().len() ==> (#[trigger] self.rows()[i]).id < self.spec_next_id()
        &&& forall|i: int|
            0 <= i < self.rows().len() ==> (#[trigger] self.rows()[i]).submitted_at >= 0
    }

    /// Whether a row exists for the key.
    pub open spec fn spec_has_row(self, player_id: i32, song_id: i32, league: League) -> bool {
        exists|i: int|
            0 <= i < self.rows().len() && (#[trigger] self.rows()[i]).player_id == player_id
                && self.rows()[i].song_id == song_id && self.rows()[i].league == league
    }

    /// The index of the key's row (unique under `wf`).
    pub open spec fn spec_row_index(self, player_id: i32, song_id: i32, league: League) -> int {
        choose|i: int|
            0 <= i < self.rows().len() && (#[trigger] self.rows()[i]).player_id == player_id
                && self.rows()[i].song_id == song_id && self.rows()[i].league == league
    }

    /// The key's row (meaningful only when `spec_has_row` holds).
    pub open spec fn spec_row(self, player_id: i32, song_id: i32, league: League) -> Score {
        self.rows()[self.spec_row_index(player_id, song_id, league)]
    }

    /// The stored (score, timestamp) pair of the key, if any.
    pub open spec fn spec_stored(self, player_id: i32, song_id: i32, league: League) -> Option<
        (i32, i64),
    > {
        if self.spec_has_row(player_id, song_id, league) {
            Option::Some(
                (
                    self.spec_row(player_id, song_id, league).score,
                    self.spec_row(player_id, song_id, league).submitted_at,
                ),
            )
        } else {
            Option::None
        }
    }

    pub fn new() -> (r: ScoreStore)
        ensures
            r.wf(),
            r.rows() == Seq::<Score>::empty(),
    {
        ScoreStore { rows: Vec::new(), next_id: 1 }
    }

    /// How many rows the store holds.
    pub fn num_rows(&self) -> (n: usize)
        ensures
            n == self.rows().len(),
    {
        self.rows.len()
    }

    /// The row at a position (query side only; rows are never handed out
    /// mutably).
    pub fn row_at(&self, i: usize) -> (r: &Score)
        requires
            i < self.rows().len(),
        ensures
            *r == self.rows()[i as int],
    {
        &self.rows[i]
    }

    /// The index of the key's row, if one exists.
    fn find_index(&self, player_id: i32, song_id: i32, league: League) -> (r: Option<usize>)
        requires
            self.wf(),
        ensures
            r is Some <==> self.spec_has_row(player_id, song_id, league),
            r is Some ==> r->0 as int == self.spec_row_index(player_id, song_id, league)
                && r->0 < self.rows().len(),
    {
        let n = self.rows.len();
        let mut i: usize = 0;
        while i < n
            invariant
                self.wf(),
                n == self.rows@.len(),
                0 <= i <= n,
                forall|k: int|
                    0 <= k < i ==> !((#[trigger] self.rows@[k]).player_id == player_id
                        && self.rows@[k].song_id == song_id && self.rows@[k].league == league),
            decreases n - i,
        {
            let row = &self.rows[i];
            if row.player_id == player_id && row.song_id == song_id && row.league == league {
                proof {
                    assert(self.rows()[i as int].player_id == player_id);
                    let j = self.spec_row_index(player_id, song_id, league);
                    if j != i as int {
                        assert(self.rows()[j].player_id == player_id);
                    }
                }
                return Some(i);
            }
            i += 1;
        }
        None
    }

    /// Atomic best-score upsert for one key, with invalidate-on-write.
    ///
    /// If no row exists for (player_id, song_id, league) one is inserted,
    /// stamped `now`. If a row exists, it is replaced only when the
    /// incoming score is strictly greater; only then is the timestamp
    /// refreshed. On any write that changes the stored row, every cached
    /// leaderboard view of (song_id, league) is invalidated before the
    /// operation completes. Returns the stored row, or `None` only when
    /// an insertion was needed and the row id space is exhausted.
    pub fn create_or_update(
        &mut self,
        cache: &mut LeaderboardCache,
        new: NewScore,
        now: i64,
    ) -> (r: Option<Score>)
        requires
            old(self).wf(),
            now >= 0,
        ensures
            final(self).wf(),
            final(self).spec_next_id() >= old(self).spec_next_id(),
            // a row existed and the incoming score wins: replace in place
            old(self).spec_has_row(new.player_id, new.song_id, new.league) && new.score > old(
                self,
            ).spec_row(new.player_id, new.song_id, new.league).score ==> {
                &&& final(self).rows() == old(self).rows().update(
                    old(self).spec_row_index(new.player_id, new.song_id, new.league),
                    replaced_row(old(self).spec_row(new.player_id, new.song_id, new.league), new, now),
                )
                &&& r is Some
                &&& score_like(
                    r->0,
                    replaced_row(old(self).spec_row(new.player_id, new.song_id, new.league), new, now),
                )
                &&& final(cache).entries() == drop_song_league(
                    old(cache).entries(),
                    new.song_id,
                    new.league,
                )
            },
            // a row existed and holds its ground: nothing changes
            old(self).spec_has_row(new.player_id, new.song_id, new.league) && new.score <= old(
                self,
            ).spec_row(new.player_id, new.song_id, new.league).score ==> {
                &&& final(self).rows() == old(self).rows()
                &&& r is Some
                &&& score_like(r->0, old(self).spec_row(new.player_id, new.song_id, new.league))
                &&& final(cache).entries() == old(cache).entries()
            },
            // first submission under the key: insert
            !old(self).spec_has_row(new.player_id, new.song_id, new.league) && old(
                self,
            ).spec_next_id() < i32::MAX ==> {
                &&& final(self).rows() == old(self).rows().push(
                    fresh_row(old(self).spec_next_id(), new, now),
                )
                &&& r is Some
                &&& score_like(r->0, fresh_row(old(self).spec_next_id(), new, now))
                &&& final(cache).entries() == drop_song_league(
                    old(cache).entries(),
                    new.song_id,
                    new.league,
                )
            },
            // id space exhausted: reject without a partial write
            !old(self).spec_has_row(new.player_id, new.song_id, new.league) && old(
                self,
            ).spec_next_id() == i32::MAX ==> {
                &&& final(self).rows() == old(self).rows()
                &&& r is None
                &&& final(cache).entries() == old(cache).entries()
            },
            // the key's row after the call, in full
            r is Some ==> final(self).spec_has_row(new.player_id, new.song_id, new.league),
            r is Some ==> final(self).spec_row(new.player_id, new.song_id, new.league) == (
            if old(self).spec_has_row(new.player_id, new.song_id, new.league) {
                if new.score > old(self).spec_row(new.player_id, new.song_id, new.league).score {
                    replaced_row(old(self).spec_row(new.player_id, new.song_id, new.league), new, now)
                } else {
                    old(self).spec_row(new.player_id, new.song_id, new.league)
                }
            } else {
                fresh_row(old(self).spec_next_id(), new, now)
            }),
            // the stored pair of the key advances by exactly one `step`
            r is Some ==> final(self).spec_stored(new.player_id, new.song_id, new.league) == step(
                old(self).spec_stored(new.player_id, new.song_id, new.league),
                (new.score, now),
            ),
            // when the stored row changed, no stale view of the key survives
            r is Some && !(old(self).spec_has_row(new.player_id, new.song_id, new.league)
                && new.score <= old(self).spec_row(new.player_id, new.song_id, new.league).score)
                ==> forall|v: Leaderboard|
                final(cache).spec_get(new.song_id, new.league, v) is None,
    {
        let ghost pid = new.player_id;
        let ghost sid = new.song_id;
        let ghost lg = new.league;
        match self.find_index(new.player_id, new.song_id, new.league) {
            Some(i) => {
                let existing_score = self.rows[i].score;
                if new.score > existing_score {
                    let song_id = new.song_id;
                    let league = new.league;
                    let row = Score {
                        id: self.rows[i].id,
                        player_id: new.player_id,
                        song_id: new.song_id,
                        league: new.league,
                        score: new.score,
                        vehicle: new.vehicle,
                        feats: new.feats,
                        track_shape: new.track_shape,
                        xstats: new.xstats,
                        density: new.density,
                        song_length: new.song_length,
                        gold_threshold: new.gold_threshold,
                        iss: new.iss,
                        isj: new.isj,
                        submitted_at: now,
                    };
                    let out = row.clone_score();
                    self.rows.set(i, row);
                    cache.invalidate(song_id, league);
                    proof {
                        self.lemma_row_index_after_update(*old(self), i as int, pid, sid, lg);
                    }
                    Some(out)
                } else {
                    let out = self.rows[i].clone_score();
                    Some(out)
                }
            },
            None => {
                if self.next_id == i32::MAX {
                    return None;
                }
                let id = self.next_id;
                self.next_id = self.next_id + 1;
                let song_id = new.song_id;
                let league = new.league;
                let row = Score {
                    id,
                    player_id: new.player_id,
                    song_id: new.song_id,
                    league: new.league,
                    score: new.score,
                    vehicle: new.vehicle,
                    feats: new.feats,
                    track_shape: new.track_shape,
                    xstats: new.xstats,
                    density: new.density,
                    song_length: new.song_length,
                    gold_threshold: new.gold_threshold,
                    iss: new.iss,
                    isj: new.isj,
                    submitted_at: now,
                };
                let out = row.clone_score();
                self.rows.push(row);
                cache.invalidate(song_id, league);
                proof {
                    self.lemma_row_index_after_push(*old(self), pid, sid, lg);
                }
                Some(out)
            },
        }
    }

    /// After updating the key's row in place, the key still resolves to
    /// the same index and no other key moved.
    proof fn lemma_row_index_after_update(
        self,
        prev: ScoreStore,
        i: int,
        player_id: i32,
        song_id: i32,
        league: League,
    )
        requires
            prev.wf(),
            0 <= i < prev.rows().len(),
            i == prev.spec_row_index(player_id, song_id, league),
            prev.spec_has_row(player_id, song_id, league),
            self.rows().len() == prev.rows().len(),
            self.rows()[i].player_id == player_id,
            self.rows()[i].song_id == song_id,
            self.rows()[i].league == league,
            forall|k: int| 0 <= k < prev.rows().len() && k != i ==> self.rows()[k] == prev.rows()[k],
        ensures
            self.spec_has_row(player_id, song_id, league),
            self.spec_row_index(player_id, song_id, league) == i,
    {
        assert(self.rows()[i].player_id == player_id);
        let j = self.spec_row_index(player_id, song_id, league);
        if j != i {
            assert(prev.rows()[j].player_id == player_id && prev.rows()[j].song_id == song_id
                && prev.rows()[j].league == league);
            assert(prev.rows()[prev.spec_row_index(player_id, song_id, league)].player_id
                == player_id);
        }
    }

    /// After pushing a fresh row for the key, the key resolves to the
    /// new last index.
    proof fn lemma_row_index_after_push(
        self,
        prev: ScoreStore,
        player_id: i32,
        song_id: i32,
        league: League,
    )
        requires
            prev.wf(),
            !prev.spec_has_row(player_id, song_id, league),
            self.rows().len() == prev.rows().len() + 1,
            self.rows().last().player_id == player_id,
            self.rows().last().song_id == song_id,
            self.rows().last().league == league,
            forall|k: int| 0 <= k < prev.rows().len() ==> self.rows()[k] == prev.rows()[k],
        ensures
            self.spec_has_row(player_id, song_id, league),
            self.spec_row_index(player_id, song_id, league) == self.rows().len() - 1,
    {
        let n = self.rows().len() - 1;
        assert(self.rows()[n].player_id == player_id);
        let j = self.spec_row_index(player_id, song_id, league);
        if j != n {
            assert(prev.rows()[j].player_id == player_id && prev.rows()[j].song_id == song_id
                && prev.rows()[j].league == league);
        }
    }
}

} // verus!

