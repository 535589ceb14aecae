//! The leaderboard query engine: three ranked views (global, rival,
//! nearby) per league over the score store, merged in a fixed order.
//! The engine never mutates state.

use vstd::prelude::*;
use vstd::multiset::Multiset;
use crate::dethrone::top_preceq;
use crate::game_types::League;
use crate::players::PlayerDirectory;
use crate::scores::{score_like, Score, ScoreStore, ScoreWithPlayer};

verus! {

/// Which visibility filter a ranked view applies.
pub enum ViewFilter<'a> {
    /// Every player's row counts.
    Global,
    /// Only rows owned by one of these player ids count.
    Rival(&'a Vec<i32>),
    /// Only rows whose owner shares this location count; a request
    /// without a location matches nobody.
    Nearby(Option<i32>),
}

/// The visibility filter at the specification level: the rival filter
/// carries the admitted player ids as a sequence.
pub enum SpecFilter {
    Global,
    Rival(Seq<i32>),
    Nearby(Option<i32>),
}

/// What an executable filter means.
pub open spec fn filter_spec(f: ViewFilter) -> SpecFilter {
    match f {
        ViewFilter::Global => SpecFilter::Global,
        ViewFilter::Rival(ids) => SpecFilter::Rival(ids@),
        ViewFilter::Nearby(loc) => SpecFilter::Nearby(loc),
    }
}

/// Row `i` belongs to the view: it is a row of (song_id, league), its
/// owner is registered (the view is a join of scores and players), and
/// the owner passes the view's visibility filter.
pub open spec fn view_match(
    store: ScoreStore,
    players: PlayerDirectory,
    song_id: i32,
    league: League,
    filter: SpecFilter,
    i: int,
) -> bool {
    &&& 0 <= i < store.rows().len()
    &&& store.rows()[i].song_id == song_id
    &&& store.rows()[i].league == league
    &&& players.spec_has_player(store.rows()[i].player_id)
    &&& match filter {
        SpecFilter::Global => true,
        SpecFilter::Rival(ids) => ids.contains(store.rows()[i].player_id),
        SpecFilter::Nearby(loc) => loc is Some && players.spec_player(
            store.rows()[i].player_id,
        ).location_id == loc,
    }
}

/// The join row presents this score row and its registered owner.
pub open spec fn presents(swp: ScoreWithPlayer, row: Score, players: PlayerDirectory) -> bool {
    &&& score_like(swp.score, row)
    &&& swp.player.id == row.player_id
    &&& swp.player.username@ == players.spec_player(row.player_id).username@
    &&& swp.player.location_id == players.spec_player(row.player_id).location_id
}

/// The output of a ranked view: every matching row exactly once, best
/// score first under the deterministic order `top_preceq`.
pub open spec fn ranked_view(
    store: ScoreStore,
    players: PlayerDirectory,
    song_id: i32,
    league: League,
    filter: SpecFilter,
    out: Seq<ScoreWithPlayer>,
) -> bool {
    &&& forall|swp: ScoreWithPlayer| #![trigger out.contains(swp)]
        out.contains(swp) ==> exists|i: int|
            view_match(store, players, song_id, league, filter, i) && presents(
                swp,
                store.rows()[i],
                players,
            )
    &&& forall|i: int|
        view_match(store, players, song_id, league, filter, i) ==> exists|k: int|
            0 <= k < out.len() && (#[trigger] out[k]).score.id == store.rows()[i].id
    &&& forall|k: int, l: int|
        0 <= k < l < out.len() ==> (#[trigger] out[k]).score.id != (#[trigger] out[l]).score.id
    &&& forall|k: int, l: int|
        0 <= k < l < out.len() ==> top_preceq((#[trigger] out[k]).score, (#[trigger] out[l]).score)
}

/// Whether `v` holds `x` (linear scan).
fn contains_i32(v: &Vec<i32>, x: i32) -> (r: bool)
    ensures
        r == v@.contains(x),
{
    let n = v.len();
    let mut i: usize = 0;
    while i < n
        invariant
            n == v@.len(),
            0 <= i <= n,
            forall|k: int| 0 <= k < i ==> v@[k] != x,
        decreases n - i,
    {
        if v[i] == x {
            return true;
        }
        i += 1;
    }
    false
}

/// The indexes of the rows belonging to the view, in row order.
fn collect_indexes(
    store: &ScoreStore,
    players: &PlayerDirectory,
    song_id: i32,
    league: League,
    filter: &ViewFilter,
) -> (idx: Vec<usize>)
    requires
        store.wf(),
        players.wf(),
    ensures
        forall|k: int|
            0 <= k < idx@.len() ==> view_match(
                *store,
                *players,
                song_id,
                league,
                filter_spec(*filter),
                (#[trigger] idx@[k]) as int,
            ),
        forall|k: int, l: int| 0 <= k < l < idx@.len() ==> idx@[k] < idx@[l],
        forall|i: int|
            view_match(*store, *players, song_id, league, filter_spec(*filter), i) ==> idx@.contains(i as usize),
{
    let n = store.num_rows();
    let mut idx: Vec<usize> = Vec::new();
    let mut i: usize = 0;
    while i < n
        invariant
            store.wf(),
            players.wf(),
            n == store.rows().len(),
            0 <= i <= n,
            forall|k: int|
                0 <= k < idx@.len() ==> view_match(
                    *store,
                    *players,
                    song_id,
                    league,
                    filter_spec(*filter),
                    (#[trigger] idx@[k]) as int,
                ),
            forall|k: int, l: int| 0 <= k < l < idx@.len() ==> idx@[k] < idx@[l],
            forall|k: int| 0 <= k < idx@.len() ==> (#[trigger] idx@[k]) < i,
            forall|j: int|
                0 <= j < i && view_match(*store, *players, song_id, league, filter_spec(*filter), j)
                    ==> idx@.contains(j as usize),
        decreases n - i,
    {
        let row = store.row_at(i);
        let mut keep = row.song_id == song_id && row.league == league;
        if keep {
            match players.lookup(row.player_id) {
                Some(p) => {
                    match filter {
                        ViewFilter::Global => {},
                        ViewFilter::Rival(ids) => {
                            keep = contains_i32(ids, row.player_id);
                        },
                        ViewFilter::Nearby(loc) => {
                            keep = match (loc, p.location_id) {
                                (Some(a), Some(b)) => *a == b,
                                _ => false,
                            };
                        },
                    }
                },
                None => {
                    keep = false;
                },
            }
        }
        let ghost prev = idx@;
        if keep {
            idx.push(i);
        }
        proof {
            assert forall|j: int|
                0 <= j < i + 1 && view_match(*store, *players, song_id, league, filter_spec(*filter), j)
                    implies idx@.contains(j as usize) by {
                if j < i {
                    assert(prev.contains(j as usize));
                    let k = choose|k: int| 0 <= k < prev.len() && prev[k] == j as usize;
                    assert(idx@[k] == j as usize);
                } else {
                    assert(idx@.last() == j as usize);
                }
            }
        }
        i += 1;
    }
    idx
}

/// Whether `a` strictly precedes `b` in the ranking order.
fn precedes(a: &Score, b: &Score) -> (r: bool)
    ensures
        r ==> top_preceq(*a, *b),
        !r ==> top_preceq(*b, *a),
{
    a.score > b.score || (a.score == b.score && (a.submitted_at < b.submitted_at || (
    a.submitted_at == b.submitted_at && a.id < b.id)))
}

/// Selection sort of row indexes into ranking order (best first).
fn sort_indexes(store: &ScoreStore, idx: Vec<usize>) -> (r: Vec<usize>)
    requires
        store.wf(),
        forall|k: int| 0 <= k < idx@.len() ==> (#[trigger] idx@[k]) < store.rows().len(),
    ensures
        r@.to_multiset() == idx@.to_multiset(),
        forall|k: int| 0 <= k < r@.len() ==> (#[trigger] r@[k]) < store.rows().len(),
        forall|k: int, l: int|
            0 <= k < l < r@.len() ==> top_preceq(
                store.rows()[(#[trigger] r@[k]) as int],
                store.rows()[(#[trigger] r@[l]) as int],
            ),
{
    broadcast use vstd::seq_lib::group_to_multiset_ensures;

    let mut rest = idx;
    let ghost orig = rest@;
    let mut out: Vec<usize> = Vec::new();
    while rest.len() > 0
        invariant
            store.wf(),
            forall|k: int| 0 <= k < rest@.len() ==> (#[trigger] rest@[k]) < store.rows().len(),
            forall|k: int| 0 <= k < out@.len() ==> (#[trigger] out@[k]) < store.rows().len(),
            out@.to_multiset().add(rest@.to_multiset()) =~= orig.to_multiset(),
            forall|k: int, l: int|
                0 <= k < l < out@.len() ==> top_preceq(
                    store.rows()[(#[trigger] out@[k]) as int],
                    store.rows()[(#[trigger] out@[l]) as int],
                ),
            forall|k: int, l: int|
                0 <= k < out@.len() && 0 <= l < rest@.len() ==> top_preceq(
                    store.rows()[(#[trigger] out@[k]) as int],
                    store.rows()[(#[trigger] rest@[l]) as int],
                ),
        decreases rest@.len(),
    {
        let m = rest.len();
        let mut best: usize = 0;
        let mut q: usize = 1;
        while q < m
            invariant
                store.wf(),
                m == rest@.len(),
                forall|k: int| 0 <= k < rest@.len() ==> (#[trigger] rest@[k]) < store.rows().len(),
                0 <= best < m,
                best < q <= m,
                forall|t: int|
                    0 <= t < q ==> top_preceq(
                        store.rows()[rest@[best as int] as int],
                        store.rows()[(#[trigger] rest@[t]) as int],
                    ),
            decreases m - q,
        {
            if precedes(store.row_at(rest[q]), store.row_at(rest[best])) {
                best = q;
            }
            q += 1;
        }
        let ghost pre_rest = rest@;
        let ghost pre_out = out@;
        proof {
            broadcast use vstd::seq_lib::group_to_multiset_ensures;

            assert(pre_rest.to_multiset().count(pre_rest[best as int]) > 0) by {
                assert(pre_rest.contains(pre_rest[best as int]));
            }
        }
        let v = rest.remove(best);
        out.push(v);
        proof {
            broadcast use vstd::seq_lib::group_to_multiset_ensures;

            assert(rest@.to_multiset() =~= pre_rest.to_multiset().remove(v));
            assert(out@.to_multiset() =~= pre_out.to_multiset().insert(v));
            assert(out@.to_multiset().add(rest@.to_multiset()) =~= pre_out.to_multiset().add(
                pre_rest.to_multiset(),
            ));
            assert forall|l: int| 0 <= l < rest@.len() implies top_preceq(
                store.rows()[v as int],
                store.rows()[(#[trigger] rest@[l]) as int],
            ) by {
                if l < best {
                    assert(rest@[l] == pre_rest[l]);
                } else {
                    assert(rest@[l] == pre_rest[l + 1]);
                }
            }
        }
    }
    proof {
        assert(rest@.to_multiset() =~= Multiset::<usize>::empty());
        assert(out@.to_multiset() =~= orig.to_multiset());
    }
    out
}

/// Materialize the ranked join rows for a sorted index sequence.
fn materialize(store: &ScoreStore, players: &PlayerDirectory, sorted: &Vec<usize>) -> (out: Vec<
    ScoreWithPlayer,
>)
    requires
        store.wf(),
        players.wf(),
        forall|k: int| 0 <= k < sorted@.len() ==> (#[trigger] sorted@[k]) < store.rows().len(),
        forall|k: int|
            0 <= k < sorted@.len() ==> players.spec_has_player(
                store.rows()[(#[trigger] sorted@[k]) as int].player_id,
            ),
    ensures
        out@.len() == sorted@.len(),
        forall|k: int|
            0 <= k < out@.len() ==> presents(
                #[trigger] out@[k],
                store.rows()[sorted@[k] as int],
                *players,
            ),
{
    let n = sorted.len();
    let mut out: Vec<ScoreWithPlayer> = Vec::new();
    let mut k: usize = 0;
    while k < n
        invariant
            store.wf(),
            players.wf(),
            n == sorted@.len(),
            forall|t: int| 0 <= t < sorted@.len() ==> (#[trigger] sorted@[t]) < store.rows().len(),
            forall|t: int|
                0 <= t < sorted@.len() ==> players.spec_has_player(
                    store.rows()[(#[trigger] sorted@[t]) as int].player_id,
                ),
            0 <= k <= n,
            out@.len() == k,
            forall|t: int|
                0 <= t < k ==> presents(
                    #[trigger] out@[t],
                    store.rows()[sorted@[t] as int],
                    *players,
                ),
        decreases n - k,
    {
        let row = store.row_at(sorted[k]);
        match players.lookup(row.player_id) {
            Some(p) => {
                out.push(ScoreWithPlayer { score: row.clone_score(), player: p.clone_player() });
            },
            None => {
                proof {
                    assert(false);
                }
            },
        }
        k += 1;
    }
    out
}

/// One ranked view over the store: every row of (song_id, league) that
/// passes the filter, joined with its owner, best score first. The view
/// is not truncated; a client takes whatever prefix it displays.
#[verifier::rlimit(60)]
pub fn query_view(
    store: &ScoreStore,
    players: &PlayerDirectory,
    song_id: i32,
    league: League,
    filter: ViewFilter,
) -> (out: Vec<ScoreWithPlayer>)
    requires
        store.wf(),
        players.wf(),
    ensures
        ranked_view(*store, *players, song_id, league, filter_spec(filter), out@),
{
    broadcast use vstd::seq_lib::group_to_multiset_ensures;

    let total = store.num_rows();
    proof {
        assert(store.rows().len() == total as int);
    }
    let idx = collect_indexes(store, players, song_id, league, &filter);
    let sorted = sort_indexes(store, idx);
    proof {
        assert forall|k: int| 0 <= k < sorted@.len() implies view_match(
            *store,
            *players,
            song_id,
            league,
            filter_spec(filter),
            (#[trigger] sorted@[k]) as int,
        ) by {
            assert(sorted@.to_multiset().count(sorted@[k]) > 0) by {
                assert(sorted@.contains(sorted@[k]));
            }
            assert(idx@.contains(sorted@[k]));
            let t = choose|t: int| 0 <= t < idx@.len() && idx@[t] == sorted@[k];
            assert(view_match(*store, *players, song_id, league, filter_spec(filter), idx@[t] as int));
        }
    }
    let out = materialize(store, players, &sorted);
    proof {
        assert forall|i: int|
            view_match(*store, *players, song_id, league, filter_spec(filter), i) implies exists|k: int|
            0 <= k < out@.len() && (#[trigger] out@[k]).score.id == store.rows()[i].id by {
            assert(idx@.contains(i as usize));
            assert(idx@.to_multiset().count(i as usize) > 0);
            assert(sorted@.contains(i as usize));
            let k = choose|k: int| 0 <= k < sorted@.len() && sorted@[k] == i as usize;
            assert(sorted@[k] as int == i);
            assert(presents(out@[k], store.rows()[i], *players));
            assert(out@[k].score.id == store.rows()[i].id);
        }
        assert(idx@.no_duplicates());
        idx@.lemma_multiset_has_no_duplicates();
        sorted@.lemma_multiset_has_no_duplicates_conv();
        assert forall|k: int, l: int| 0 <= k < l < out@.len() implies (#[trigger] out@[k]).score.id != (
        #[trigger] out@[l]).score.id by {
            assert(sorted@[k] != sorted@[l]);
            let a = sorted@[k] as int;
            let b = sorted@[l] as int;
            if a < b {
                assert(store.rows()[a].id != store.rows()[b].id);
            } else {
                assert(store.rows()[b].id != store.rows()[a].id);
            }
        }
        assert forall|swp: ScoreWithPlayer| #![trigger out@.contains(swp)]
            out@.contains(swp) implies (exists|i: int|
            view_match(*store, *players, song_id, league, filter_spec(filter), i) && presents(
                swp,
                store.rows()[i],
                *players,
            )) by {
            let k = choose|k: int| 0 <= k < out@.len() && out@[k] == swp;
            let i = sorted@[k] as int;
            assert(presents(out@[k], store.rows()[i], *players));
            assert(view_match(*store, *players, song_id, league, filter_spec(filter), i));
            assert(view_match(*store, *players, song_id, league, filter_spec(filter), i) && presents(
                swp,
                store.rows()[i],
                *players,
            ));
        }
        assert forall|k: int, l: int| 0 <= k < l < out@.len() implies top_preceq(
            (#[trigger] out@[k]).score,
            (#[trigger] out@[l]).score,
        ) by {
            assert(presents(out@[k], store.rows()[sorted@[k] as int], *players));
            assert(presents(out@[l], store.rows()[sorted@[l] as int], *players));
            assert(top_preceq(
                store.rows()[sorted@[k] as int],
                store.rows()[sorted@[l] as int],
            ));
        }
        assert(ranked_view(*store, *players, song_id, league, filter_spec(filter), out@));
    }
    out
}

} // verus!
