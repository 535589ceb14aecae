//! The dethrone evaluator: on a submission, compare against the current
//! top score held by any other player for the (song, league), compute
//! the reign duration and the friend (mutual rivalry) flag.

use vstd::prelude::*;
use crate::game_types::League;
use crate::players::PlayerDirectory;
use crate::rivalries::RivalryGraph;
use crate::scores::{Score, ScoreStore};

verus! {

/// The rival score the sentinel summary reports when nobody else holds
/// a score. The literal is kept verbatim for client compatibility.
pub const NO_RIVAL_SCORE: i32 = 143;

/// The dethrone part of a submission response.
#[derive(Debug)]
pub struct BeatScore {
    pub dethroned: bool,
    pub friend: bool,
    pub rival_name: String,
    pub rival_score: i32,
    pub my_score: i32,
    pub reign_seconds: i64,
}

/// Deterministic "current top" order on rows with equal keys: higher
/// score first, then earlier submission, then lower row id.
pub open spec fn top_preceq(a: Score, b: Score) -> bool {
    ||| a.score > b.score
    ||| (a.score == b.score && a.submitted_at < b.submitted_at)
    ||| (a.score == b.score && a.submitted_at == b.submitted_at && a.id <= b.id)
}

/// Row `i` competes for the current top of (song_id, league): it belongs
/// to another player, and that player is registered (the top lookup is a
/// join of scores and players).
pub open spec fn candidate_at(
    store: ScoreStore,
    players: PlayerDirectory,
    song_id: i32,
    league: League,
    exclude_player: i32,
    i: int,
) -> bool {
    &&& 0 <= i < store.rows().len()
    &&& store.rows()[i].song_id == song_id
    &&& store.rows()[i].league == league
    &&& store.rows()[i].player_id != exclude_player
    &&& players.spec_has_player(store.rows()[i].player_id)
}

/// Some other player holds a score for (song_id, league).
pub open spec fn spec_has_top(
    store: ScoreStore,
    players: PlayerDirectory,
    song_id: i32,
    league: League,
    exclude_player: i32,
) -> bool {
    exists|i: int| candidate_at(store, players, song_id, league, exclude_player, i)
}

/// Row `i` is the current top: a candidate that precedes every candidate.
pub open spec fn is_top_at(
    store: ScoreStore,
    players: PlayerDirectory,
    song_id: i32,
    league: League,
    exclude_player: i32,
    i: int,
) -> bool {
    &&& candidate_at(store, players, song_id, league, exclude_player, i)
    &&& forall|j: int|
        candidate_at(store, players, song_id, league, exclude_player, j) ==> top_preceq(
            store.rows()[i],
            store.rows()[j],
        )
}

/// The index of the current top row (unique when the store is well
/// formed and one exists).
pub open spec fn spec_top_index(
    store: ScoreStore,
    players: PlayerDirectory,
    song_id: i32,
    league: League,
    exclude_player: i32,
) -> int {
    choose|i: int| is_top_at(store, players, song_id, league, exclude_player, i)
}

/// Find the current top score for (song_id, league) among players other
/// than `exclude_player`, under the deterministic order `top_preceq`.
pub fn current_top_index(
    store: &ScoreStore,
    players: &PlayerDirectory,
    song_id: i32,
    league: League,
    exclude_player: i32,
) -> (r: Option<usize>)
    requires
        store.wf(),
        players.wf(),
    ensures
        r is Some <==> spec_has_top(*store, *players, song_id, league, exclude_player),
        r is Some ==> is_top_at(
            *store,
            *players,
            song_id,
            league,
            exclude_player,
            r->0 as int,
        ) && r->0 as int == spec_top_index(*store, *players, song_id, league, exclude_player),
{
    let n = store.num_rows();
    let mut best: Option<usize> = None;
    let mut i: usize = 0;
    while i < n
        invariant
            store.wf(),
            players.wf(),
            n == store.rows().len(),
            0 <= i <= n,
            best is None ==> forall|j: int|
                0 <= j < i ==> !candidate_at(*store, *players, song_id, league, exclude_player, j),
            best is Some ==> {
                &&& best->0 < i
                &&& candidate_at(
                    *store,
                    *players,
                    song_id,
                    league,
                    exclude_player,
                    best->0 as int,
                )
                &&& forall|j: int|
                    0 <= j < i && candidate_at(*store, *players, song_id, league, exclude_player, j)
                        ==> top_preceq(store.rows()[best->0 as int], store.rows()[j])
            },
        decreases n - i,
    {
        let row = store.row_at(i);
        let is_candidate = row.song_id == song_id && row.league == league && row.player_id
            != exclude_player && players.lookup(row.player_id).is_some();
        if is_candidate {
            match best {
                None => {
                    best = Some(i);
                },
                Some(b) => {
                    let cur = store.row_at(b);
                    let beats = row.score > cur.score || (row.score == cur.score
                        && (row.submitted_at < cur.submitted_at || (row.submitted_at
                        == cur.submitted_at && row.id < cur.id)));
                    if beats {
                        best = Some(i);
                    }
                },
            }
        }
        i += 1;
    }
    proof {
        if best is Some {
            let b = best->0 as int;
            assert(is_top_at(*store, *players, song_id, league, exclude_player, b));
            let t = spec_top_index(*store, *players, song_id, league, exclude_player);
            assert(is_top_at(*store, *players, song_id, league, exclude_player, t));
            if t != b {
                assert(top_preceq(store.rows()[b], store.rows()[t]));
                assert(top_preceq(store.rows()[t], store.rows()[b]));
                assert(store.rows()[t].id == store.rows()[b].id);
            }
        }
    }
    best
}

/// The summary the evaluator owes when nobody else holds a score: the
/// fixed sentinel, reproduced verbatim for client compatibility.
pub open spec fn sentinel_summary(r: BeatScore) -> bool {
    &&& r.dethroned == false
    &&& r.friend == false
    &&& r.rival_name@ == "No one"@
    &&& r.rival_score == NO_RIVAL_SCORE
    &&& r.my_score == 0
    &&& r.reign_seconds == 0
}

/// Evaluate a submission against the current top score of the key.
///
/// Never mutates state. With no other player's score the fixed sentinel
/// summary is returned. Otherwise: `dethroned` compares the submission
/// against the other player's top alone, `reign_seconds` is the whole
/// seconds the top row has held since it was stored, and `friend` is the
/// rivalry mutuality between submitter and top holder.
pub fn evaluate(
    store: &ScoreStore,
    players: &PlayerDirectory,
    graph: &RivalryGraph,
    song_id: i32,
    league: League,
    submitter: i32,
    submitted_score: i32,
    now: i64,
) -> (r: BeatScore)
    requires
        store.wf(),
        players.wf(),
        now >= 0,
    ensures
        !spec_has_top(*store, *players, song_id, league, submitter) ==> sentinel_summary(r),
        spec_has_top(*store, *players, song_id, league, submitter) ==> ({
            let top = store.rows()[spec_top_index(*store, *players, song_id, league, submitter)];
            &&& r.dethroned == (top.score < submitted_score)
            &&& r.friend == graph.spec_is_mutual(submitter, top.player_id)
            &&& r.rival_name@ == players.spec_player(top.player_id).username@
            &&& r.rival_score == top.score
            &&& r.my_score == submitted_score
            &&& r.reign_seconds == now - top.submitted_at
        }),
{
    match current_top_index(store, players, song_id, league, submitter) {
        None => BeatScore {
            dethroned: false,
            friend: false,
            rival_name: "No one".to_owned(),
            rival_score: NO_RIVAL_SCORE,
            my_score: 0,
            reign_seconds: 0,
        },
        Some(i) => {
            let top = store.row_at(i);
            match players.lookup(top.player_id) {
                Some(holder) => {
                    let mutual = graph.is_mutual(submitter, top.player_id);
                    BeatScore {
                        dethroned: top.score < submitted_score,
                        friend: mutual,
                        rival_name: holder.username.clone(),
                        rival_score: top.score,
                        my_score: submitted_score,
                        reign_seconds: now - top.submitted_at,
                    }
                },
                None => {
                    proof {
                        assert(false);
                    }
                    BeatScore {
                        dethroned: false,
                        friend: false,
                        rival_name: String::new(),
                        rival_score: 0,
                        my_score: 0,
                        reign_seconds: 0,
                    }
                },
            }
        },
    }
}

} // verus!

