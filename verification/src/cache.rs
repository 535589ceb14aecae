//! Best-effort leaderboard cache: `get`/`put`/`invalidate` keyed by
//! (song, league, view). The ranking core is correct with the cache
//! absent; the store invalidates on every write that changes a row.

use vstd::prelude::*;
use crate::game_types::{League, Leaderboard};
use crate::rides::Ride;

verus! {

/// One cached ranked view.
pub struct CacheEntry {
    pub song_id: i32,
    pub league: League,
    pub view: Leaderboard,
    pub rides: Vec<Ride>,
}

/// The entry a lookup answers with: the most recently put entry for the
/// key, scanning from the newest end.
pub open spec fn entry_lookup(
    entries: Seq<CacheEntry>,
    song_id: i32,
    league: League,
    view: Leaderboard,
) -> Option<CacheEntry>
    decreases entries.len(),
{
    if entries.len() == 0 {
        None
    } else if entries.last().song_id == song_id && entries.last().league == league
        && entries.last().view == view {
        Some(entries.last())
    } else {
        entry_lookup(entries.drop_last(), song_id, league, view)
    }
}

/// The entries left after every view of (song_id, league) is dropped.
pub open spec fn drop_song_league(entries: Seq<CacheEntry>, song_id: i32, league: League) -> Seq<
    CacheEntry,
>
    decreases entries.len(),
{
    if entries.len() == 0 {
        Seq::empty()
    } else {
        let rest = drop_song_league(entries.drop_last(), song_id, league);
        if entries.last().song_id == song_id && entries.last().league == league {
            rest
        } else {
            rest.push(entries.last())
        }
    }
}

/// After an invalidation nothing is cached for the key, in any view.
pub proof fn lemma_invalidate_clears(
    entries: Seq<CacheEntry>,
    song_id: i32,
    league: League,
    view: Leaderboard,
)
    ensures
        entry_lookup(drop_song_league(entries, song_id, league), song_id, league, view) is None,
    decreases entries.len(),
{
    if entries.len() > 0 {
        lemma_invalidate_clears(entries.drop_last(), song_id, league, view);
        let rest = drop_song_league(entries.drop_last(), song_id, league);
        if !(entries.last().song_id == song_id && entries.last().league == league) {
            assert(rest.push(entries.last()).drop_last() =~= rest);
        }
    }
}

/// Invalidating one key leaves every other key's lookup unchanged.
pub proof fn lemma_invalidate_keeps_others(
    entries: Seq<CacheEntry>,
    song_id: i32,
    league: League,
    other_song: i32,
    other_league: League,
    view: Leaderboard,
)
    requires
        other_song != song_id || other_league != league,
    ensures
        entry_lookup(drop_song_league(entries, song_id, league), other_song, other_league, view)
            == entry_lookup(entries, other_song, other_league, view),
    decreases entries.len(),
{
    if entries.len() > 0 {
        lemma_invalidate_keeps_others(
            entries.drop_last(),
            song_id,
            league,
            other_song,
            other_league,
            view,
        );
        let rest = drop_song_league(entries.drop_last(), song_id, league);
        if !(entries.last().song_id == song_id && entries.last().league == league) {
            assert(rest.push(entries.last()).drop_last() =~= rest);
        }
    }
}

/// The cache itself: an append-ordered list of cached views.
pub struct LeaderboardCache {
    entries: Vec<CacheEntry>,
}

impl LeaderboardCache {
    pub closed spec fn entries(self) -> Seq<CacheEntry> {
        self.entries@
    }

    /// What a read for the key currently answers.
    pub open spec fn spec_get(self, song_id: i32, league: League, view: Leaderboard) -> Option<
        CacheEntry,
    > {
        entry_lookup(self.entries(), song_id, league, view)
    }

    pub fn new() -> (r: LeaderboardCache)
        ensures
            r.entries() == Seq::<CacheEntry>::empty(),
    {
        LeaderboardCache { entries: Vec::new() }
    }

    /// Read-through lookup: the cached rides for the key, newest first,
    /// or nothing on a miss. A miss is not a failure.
    pub fn get(&self, song_id: i32, league: League, view: Leaderboard) -> (r: Option<&Vec<Ride>>)
        ensures
            r is Some <==> self.spec_get(song_id, league, view) is Some,
            r is Some ==> *r->0 == self.spec_get(song_id, league, view)->0.rides,
    {
        let mut i: usize = self.entries.len();
        proof {
            assert(self.entries@.take(self.entries@.len() as int) =~= self.entries@);
        }
        while i > 0
            invariant
                i <= self.entries@.len(),
                entry_lookup(self.entries@, song_id, league, view) == entry_lookup(
                    self.entries@.take(i as int),
                    song_id,
                    league,
                    view,
                ),
            decreases i,
        {
            i -= 1;
            proof {
                assert(self.entries@.take(i + 1).drop_last() =~= self.entries@.take(i as int));
                assert(self.entries@.take(i + 1).last() == self.entries@[i as int]);
            }
            let e = &self.entries[i];
            if e.song_id == song_id && e.league == league && e.view == view {
                return Some(&e.rides);
            }
        }
        proof {
            assert(self.entries@.take(0) =~= Seq::<CacheEntry>::empty());
        }
        None
    }

    /// Cache a freshly computed view for the key.
    pub fn put(&mut self, song_id: i32, league: League, view: Leaderboard, rides: Vec<Ride>)
        ensures
            final(self).entries() == old(self).entries().push(
                CacheEntry { song_id, league, view, rides },
            ),
            final(self).spec_get(song_id, league, view) == Some(
                CacheEntry { song_id, league, view, rides },
            ),
    {
        self.entries.push(CacheEntry { song_id, league, view, rides });
    }

    /// Drop every cached view of (song_id, league); other keys keep their
    /// entries and their lookup order.
    pub fn invalidate(&mut self, song_id: i32, league: League)
        ensures
            final(self).entries() == drop_song_league(old(self).entries(), song_id, league),
            forall|v: Leaderboard| final(self).spec_get(song_id, league, v) is None,
    {
        let ghost orig = self.entries@;
        let mut kept: Vec<CacheEntry> = Vec::new();
        let ghost mut j: int = 0;
        while self.entries.len() > 0
            invariant
                0 <= j <= orig.len(),
                self.entries@ == orig.skip(j),
                kept@ == drop_song_league(orig.take(j), song_id, league),
            decreases orig.len() - j,
        {
            proof {
                assert(orig.take(j + 1).drop_last() =~= orig.take(j));
                assert(orig.take(j + 1).last() == orig[j]);
                assert(orig.skip(j)[0] == orig[j]);
                assert(orig.skip(j).remove(0) =~= orig.skip(j + 1));
            }
            let e = self.entries.remove(0);
            if !(e.song_id == song_id && e.league == league) {
                kept.push(e);
            }
            proof {
                j = j + 1;
            }
        }
        proof {
            assert(orig.take(orig.len() as int) =~= orig);
        }
        self.entries = kept;
        proof {
            assert forall|v: Leaderboard| self.spec_get(song_id, league, v) is None by {
                lemma_invalidate_clears(orig, song_id, league, v);
            }
        }
    }
}

} // verus!
