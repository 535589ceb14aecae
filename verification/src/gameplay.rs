//! The boundary the transport layer calls: song id resolution, score
//! submission with its dethrone summary, and the per-song leaderboards.

use vstd::prelude::*;
use vstd::utf8::encode_utf8;
use crate::cache::{entry_lookup, CacheEntry, LeaderboardCache};
use crate::dethrone::{evaluate, sentinel_summary, spec_has_top, spec_top_index, BeatScore};
use crate::errors::RouteError;
use crate::game_types::{league_order, Character, League, Leaderboard};
use crate::leaderboard::{filter_spec, presents, query_view, view_match, SpecFilter, ViewFilter};
use crate::parse::{spec_split_parse, split_comma_separated, split_x_separated};
use crate::players::PlayerDirectory;
use crate::rides::{clone_rides, create_league_rides, ride_like, ride_of, LeagueRides, ResponseScore, Ride};
use crate::dethrone::top_preceq;
use crate::rivalries::{rivals_of, RivalryGraph};
use crate::scores::{step, NewScore, Score, ScoreStore};
use crate::songs::SongRegistry;

verus! {

/// Seconds since the Unix epoch, from the wall clock.
///
/// Relies on time::OffsetDateTime::now_utc and unix_timestamp; the value
/// depends on the machine's clock, so nothing is promised of it.
#[verifier::external_body]
fn now_unix_seconds() -> i64 {
    time::OffsetDateTime::now_utc().unix_timestamp()
}

/// A song id lookup: resolve (or register) a song by title and artist.
pub struct SongIdRequest {
    pub artist: String,
    pub song: String,
    pub league: League,
}

#[derive(Debug)]
pub struct SongIdResponse {
    pub status: String,
    pub song_id: i32,
}

/// Resolve a song id for the request, registering the song when it is
/// unknown. Fails only when a new song is needed and the id space is
/// exhausted.
pub fn fetch_song_id(registry: &mut SongRegistry, req: &SongIdRequest) -> (r: Result<
    SongIdResponse,
    RouteError,
>)
    requires
        old(registry).wf(),
    ensures
        final(registry).wf(),
        r is Ok <==> (old(registry).spec_has_song(req.song@, req.artist@) || old(
            registry,
        ).spec_next_id() < i32::MAX),
        r matches Ok(resp) ==> resp.status@ == "allgood"@,
        r matches Ok(resp) ==> (old(registry).spec_has_song(req.song@, req.artist@) ==> (exists|
            i: int,
        |
            0 <= i < old(registry).rows().len() && (#[trigger] old(registry).rows()[i]).title@
                == req.song@ && old(registry).rows()[i].artist@ == req.artist@ && old(
                registry,
            ).rows()[i].id == resp.song_id) && final(registry).rows() == old(registry).rows()),
        r matches Ok(resp) ==> (!old(registry).spec_has_song(req.song@, req.artist@) ==> {
            &&& resp.song_id == old(registry).spec_next_id()
            &&& final(registry).rows().len() == old(registry).rows().len() + 1
            &&& final(registry).rows().last().id == resp.song_id
            &&& final(registry).rows().last().title@ == req.song@
            &&& final(registry).rows().last().artist@ == req.artist@
            &&& forall|i: int|
                0 <= i < old(registry).rows().len() ==> final(registry).rows()[i] == old(
                    registry,
                ).rows()[i]
            &&& final(registry).spec_has_song(req.song@, req.artist@)
        }),
        r is Err ==> r == Result::<SongIdResponse, RouteError>::Err(RouteError::Persistence)
            && final(registry).rows() == old(registry).rows(),
{
    match registry.find_or_create(&req.song, &req.artist) {
        Some(song) => {
            proof {
                if !old(registry).spec_has_song(req.song@, req.artist@) {
                    assert(registry.rows()[registry.rows().len() - 1].title@ == req.song@);
                }
            }
            Ok(SongIdResponse { status: "allgood".to_owned(), song_id: song.id })
        },
        None => Err(RouteError::Persistence),
    }
}

/// A score submission as the core receives it. The numeric sequence
/// fields arrive in their wire form and are validated here.
pub struct SendRideRequest {
    pub song_id: i32,
    pub score: i32,
    pub vehicle: Character,
    pub league: League,
    pub feats: String,
    pub song_length: i32,
    pub track_shape: String,
    pub density: i32,
    pub xstats: String,
    pub gold_threshold: i32,
    pub iss: i32,
    pub isj: i32,
}

#[derive(Debug)]
pub struct SendRideResponse {
    pub status: String,
    pub song_id: i32,
    pub beat_score: BeatScore,
}

/// Everything a submission does, relative to the store and cache before
/// the call and the instant `now` the store stamped it with.
pub open spec fn send_ride_post(
    pre: ScoreStore,
    post: ScoreStore,
    pre_cache: Seq<CacheEntry>,
    post_cache: Seq<CacheEntry>,
    players: PlayerDirectory,
    graph: RivalryGraph,
    songs: SongRegistry,
    steam_player: u64,
    req: SendRideRequest,
    r: Result<SendRideResponse, RouteError>,
    now: i64,
) -> bool {
    let pid = players.spec_by_steam(steam_player).id;
    let ts = spec_split_parse(encode_utf8(req.track_shape@), 120);
    let xs = spec_split_parse(encode_utf8(req.xstats@), 44);
    let had = pre.spec_has_row(pid, req.song_id, req.league);
    let changed = !had || req.score > pre.spec_row(pid, req.song_id, req.league).score;
    let unchanged = post.rows() == pre.rows() && post_cache == pre_cache;
    &&& post.wf()
    &&& !players.spec_has_steam(steam_player) ==> r == Result::<
        SendRideResponse,
        RouteError,
    >::Err(RouteError::PlayerNotFound) && unchanged
    &&& players.spec_has_steam(steam_player) && !songs.spec_has_song_id(req.song_id) ==> r
        == Result::<SendRideResponse, RouteError>::Err(RouteError::SongNotFound) && unchanged
    &&& players.spec_has_steam(steam_player) && songs.spec_has_song_id(req.song_id) && (ts is None
        || xs is None) ==> r == Result::<SendRideResponse, RouteError>::Err(RouteError::Validation)
        && unchanged
    &&& players.spec_has_steam(steam_player) && songs.spec_has_song_id(req.song_id) && ts is Some
        && xs is Some ==> {
        &&& (r is Ok <==> (had || pre.spec_next_id() < i32::MAX))
        &&& r is Err ==> r == Result::<SendRideResponse, RouteError>::Err(RouteError::Persistence)
            && unchanged
        &&& r matches Ok(resp) ==> {
            &&& resp.status@ == "allgood"@
            &&& resp.song_id == req.song_id
            // the key's stored pair advances by exactly one upsert step
            &&& post.spec_stored(pid, req.song_id, req.league) == step(
                pre.spec_stored(pid, req.song_id, req.league),
                (req.score, now),
            )
            // on an actual write the whole row carries the submission
            &&& changed ==> {
                let row = post.spec_row(pid, req.song_id, req.league);
                &&& row.player_id == pid
                &&& row.song_id == req.song_id
                &&& row.league == req.league
                &&& row.score == req.score
                &&& row.vehicle == req.vehicle
                &&& row.feats@ == req.feats@
                &&& row.track_shape@ == ts->0
                &&& row.xstats@ == xs->0
                &&& row.density == req.density
                &&& row.song_length == req.song_length
                &&& row.gold_threshold == req.gold_threshold
                &&& row.iss == req.iss
                &&& row.isj == req.isj
                &&& row.submitted_at == now
            }
            // otherwise the existing row (timestamp included) is kept
            &&& !changed ==> post.rows() == pre.rows()
            // cache discipline: invalidate on write, untouched otherwise
            &&& changed ==> forall|v: Leaderboard|
                entry_lookup(post_cache, req.song_id, req.league, v) is None
            &&& !changed ==> post_cache == pre_cache
            // the dethrone summary, evaluated against the prior store
            &&& !spec_has_top(pre, players, req.song_id, req.league, pid) ==> sentinel_summary(
                resp.beat_score,
            )
            &&& spec_has_top(pre, players, req.song_id, req.league, pid) ==> {
                let top = pre.rows()[spec_top_index(pre, players, req.song_id, req.league, pid)];
                &&& resp.beat_score.dethroned == (top.score < req.score)
                &&& resp.beat_score.friend == graph.spec_is_mutual(pid, top.player_id)
                &&& resp.beat_score.rival_name@ == players.spec_player(top.player_id).username@
                &&& resp.beat_score.rival_score == top.score
                &&& resp.beat_score.my_score == req.score
                &&& resp.beat_score.reign_seconds == now - top.submitted_at
            }
        }
    }
}

/// Accept a score submission, stamping it with the given instant.
///
/// The caller is authenticated upstream; `steam_player` is the external
/// id the authenticator produced. The submission is validated, evaluated
/// against the current top score, and upserted with keep-best semantics.
pub fn send_ride_at(
    store: &mut ScoreStore,
    cache: &mut LeaderboardCache,
    players: &PlayerDirectory,
    graph: &RivalryGraph,
    songs: &SongRegistry,
    steam_player: u64,
    req: SendRideRequest,
    now: i64,
) -> (r: Result<SendRideResponse, RouteError>)
    requires
        old(store).wf(),
        players.wf(),
        songs.wf(),
        now >= 0,
    ensures
        final(store).wf(),
        send_ride_post(
            *old(store),
            *final(store),
            old(cache).entries(),
            final(cache).entries(),
            *players,
            *graph,
            *songs,
            steam_player,
            req,
            r,
            now,
        ),
{
    let player = match players.find_by_steam_id(steam_player) {
        Some(p) => p,
        None => {
            return Err(RouteError::PlayerNotFound);
        },
    };
    if !songs.has_song_id(req.song_id) {
        return Err(RouteError::SongNotFound);
    }
    let track_shape = match split_x_separated(req.track_shape.as_str().as_bytes()) {
        Some(v) => v,
        None => {
            return Err(RouteError::Validation);
        },
    };
    let xstats = match split_comma_separated(req.xstats.as_str().as_bytes()) {
        Some(v) => v,
        None => {
            return Err(RouteError::Validation);
        },
    };
    let beat_score = evaluate(
        store,
        players,
        graph,
        req.song_id,
        req.league,
        player.id,
        req.score,
        now,
    );
    let new = NewScore {
        player_id: player.id,
        song_id: req.song_id,
        league: req.league,
        score: req.score,
        vehicle: req.vehicle,
        feats: req.feats,
        track_shape,
        xstats,
        density: req.density,
        song_length: req.song_length,
        gold_threshold: req.gold_threshold,
        iss: req.iss,
        isj: req.isj,
    };
    match store.create_or_update(cache, new, now) {
        Some(stored) => {
            proof {
                let pre = *old(store);
                let pid = players.spec_by_steam(steam_player).id;
                let had = pre.spec_has_row(pid, req.song_id, req.league);
                if !had || req.score > pre.spec_row(pid, req.song_id, req.league).score {
                    assert forall|v: Leaderboard|
                        entry_lookup(cache.entries(), req.song_id, req.league, v) is None by {
                        assert(cache.spec_get(req.song_id, req.league, v) is None);
                    }
                }
            }
            Ok(SendRideResponse { status: "allgood".to_owned(), song_id: stored.song_id, beat_score })
        },
        None => Err(RouteError::Persistence),
    }
}

/// Accept a score submission, stamped with the wall clock (a reading
/// before the Unix epoch is clamped to it).
pub fn send_ride(
    store: &mut ScoreStore,
    cache: &mut LeaderboardCache,
    players: &PlayerDirectory,
    graph: &RivalryGraph,
    songs: &SongRegistry,
    steam_player: u64,
    req: SendRideRequest,
) -> (r: Result<SendRideResponse, RouteError>)
    requires
        old(store).wf(),
        players.wf(),
        songs.wf(),
    ensures
        final(store).wf(),
        exists|now: i64|
            now >= 0 && send_ride_post(
                *old(store),
                *final(store),
                old(cache).entries(),
                final(cache).entries(),
                *players,
                *graph,
                *songs,
                steam_player,
                req,
                r,
                now,
            ),
{
    let t = now_unix_seconds();
    let now: i64 = if t < 0 {
        0
    } else {
        t
    };
    let r = send_ride_at(store, cache, players, graph, songs, steam_player, req, now);
    proof {
        assert(send_ride_post(
            *old(store),
            *store,
            old(cache).entries(),
            cache.entries(),
            *players,
            *graph,
            *songs,
            steam_player,
            req,
            r,
            now,
        ));
    }
    r
}


/// A display ride presents exactly this stored row and its owner.
pub open spec fn ride_presents(rd: Ride, row: Score, players: PlayerDirectory) -> bool {
    &&& rd.username@ == players.spec_player(row.player_id).username@
    &&& rd.score == row.score
    &&& rd.vehicle_id == row.vehicle
    &&& rd.time == row.submitted_at
    &&& rd.feats@ == row.feats@
    &&& rd.song_length == row.song_length
    &&& rd.traffic_count == row.id
}

/// The ranking order carried over to display rides: higher score first,
/// then earlier submission, then lower row id.
pub open spec fn ride_preceq(a: Ride, b: Ride) -> bool {
    ||| a.score > b.score
    ||| (a.score == b.score && a.time < b.time)
    ||| (a.score == b.score && a.time == b.time && a.traffic_count <= b.traffic_count)
}

/// The ride list is exactly the view: every matching row displayed once,
/// nothing else, best score first.
pub open spec fn rides_match_view(
    store: ScoreStore,
    players: PlayerDirectory,
    song_id: i32,
    league: League,
    filter: SpecFilter,
    rides: Seq<Ride>,
) -> bool {
    &&& forall|rd: Ride| #![trigger rides.contains(rd)]
        rides.contains(rd) ==> exists|i: int|
            view_match(store, players, song_id, league, filter, i) && ride_presents(
                rd,
                store.rows()[i],
                players,
            )
    &&& forall|i: int|
        view_match(store, players, song_id, league, filter, i) ==> exists|k: int|
            0 <= k < rides.len() && (#[trigger] rides[k]).traffic_count == store.rows()[i].id
    &&& forall|k: int, l: int|
        0 <= k < l < rides.len() ==> (#[trigger] rides[k]).traffic_count != (
        #[trigger] rides[l]).traffic_count
    &&& forall|k: int, l: int|
        0 <= k < l < rides.len() ==> ride_preceq(#[trigger] rides[k], #[trigger] rides[l])
}

/// One league's rides for one view: query, then convert for display.
fn league_rides_for(
    store: &ScoreStore,
    players: &PlayerDirectory,
    song_id: i32,
    league: League,
    filter: ViewFilter,
) -> (lr: LeagueRides)
    requires
        store.wf(),
        players.wf(),
    ensures
        lr.league_id == league,
        rides_match_view(
            *store,
            *players,
            song_id,
            league,
            filter_spec(filter),
            lr.ride@,
        ),
{
    let ghost fs = filter_spec(filter);
    let ws = query_view(store, players, song_id, league, filter);
    let ghost wsv = ws@;
    let lr = create_league_rides(league, ws);
    proof {
        let rs = lr.ride@;
        assert forall|rd: Ride| #![trigger rs.contains(rd)]
            rs.contains(rd) implies (exists|i: int|
            view_match(*store, *players, song_id, league, fs, i) && ride_presents(
                rd,
                store.rows()[i],
                *players,
            )) by {
            let k = choose|k: int| 0 <= k < rs.len() && rs[k] == rd;
            assert(ride_of(rs[k], wsv[k]));
            assert(wsv.contains(wsv[k]));
            let i = choose|i: int|
                view_match(*store, *players, song_id, league, fs, i) && presents(
                    wsv[k],
                    store.rows()[i],
                    *players,
                );
            assert(ride_presents(rd, store.rows()[i], *players));
            assert(view_match(*store, *players, song_id, league, fs, i) && ride_presents(
                rd,
                store.rows()[i],
                *players,
            ));
        }
        assert forall|i: int|
            view_match(*store, *players, song_id, league, fs, i) implies (exists|k: int|
            0 <= k < rs.len() && (#[trigger] rs[k]).traffic_count == store.rows()[i].id) by {
            let k = choose|k: int|
                0 <= k < wsv.len() && (#[trigger] wsv[k]).score.id == store.rows()[i].id;
            assert(ride_of(rs[k], wsv[k]));
            assert(rs[k].traffic_count == store.rows()[i].id);
        }
        assert forall|k: int, l: int| 0 <= k < l < rs.len() implies (#[trigger] rs[k]).traffic_count
            != (#[trigger] rs[l]).traffic_count by {
            assert(ride_of(rs[k], wsv[k]));
            assert(ride_of(rs[l], wsv[l]));
        }
        assert forall|k: int, l: int| 0 <= k < l < rs.len() implies ride_preceq(
            #[trigger] rs[k],
            #[trigger] rs[l],
        ) by {
            assert(ride_of(rs[k], wsv[k]));
            assert(ride_of(rs[l], wsv[l]));
            assert(top_preceq(wsv[k].score, wsv[l].score));
        }
    }
    lr
}

/// A leaderboard retrieval for one song.
pub struct GetRidesRequest {
    pub song_id: i32,
}

#[derive(Debug)]
pub struct GetRidesResponse {
    pub status: String,
    pub scores: Vec<ResponseScore>,
    pub server_time: u64,
}

/// Serve the three ranked views of every league for one song.
///
/// The reply holds one entry per view, in the fixed order global,
/// rival, nearby; inside each, one league entry per league in the fixed
/// enumeration order. Each league entry holds that view's ranked rides.
/// The nesting is view-major — each view carries all leagues — which is
/// the wire layout the game client expects, even though the views are
/// assembled league by league. Never mutates state; fails only for an
/// unregistered requester.
pub fn get_rides(
    store: &ScoreStore,
    players: &PlayerDirectory,
    graph: &RivalryGraph,
    steam_player: u64,
    req: &GetRidesRequest,
) -> (r: Result<GetRidesResponse, RouteError>)
    requires
        store.wf(),
        players.wf(),
    ensures
        r is Ok <==> players.spec_has_steam(steam_player),
        r is Err ==> r == Result::<GetRidesResponse, RouteError>::Err(RouteError::PlayerNotFound),
        r matches Ok(resp) ==> ({
            let pid = players.spec_by_steam(steam_player).id;
            let rlist = rivals_of(graph.edges(), pid).push(pid);
            let loc = players.spec_by_steam(steam_player).location_id;
            &&& resp.status@ == "allgood"@
            &&& resp.server_time == 143
            &&& resp.scores@.len() == 3
            &&& resp.scores@[0].score_type == Leaderboard::Global
            &&& resp.scores@[1].score_type == Leaderboard::Friend
            &&& resp.scores@[2].score_type == Leaderboard::Nearby
            &&& forall|v: int| 0 <= v < 3 ==> (#[trigger] resp.scores@[v]).league@.len() == 3
            &&& forall|v: int, t: int|
                0 <= v < 3 && 0 <= t < 3 ==> (#[trigger] resp.scores@[v].league@[t]).league_id
                    == league_order()[t]
            &&& forall|t: int|
                0 <= t < 3 ==> rides_match_view(
                    *store,
                    *players,
                    req.song_id,
                    league_order()[t],
                    SpecFilter::Global,
                    (#[trigger] resp.scores@[0].league@[t]).ride@,
                )
            &&& forall|t: int|
                0 <= t < 3 ==> rides_match_view(
                    *store,
                    *players,
                    req.song_id,
                    league_order()[t],
                    SpecFilter::Rival(rlist),
                    (#[trigger] resp.scores@[1].league@[t]).ride@,
                )
            &&& forall|t: int|
                0 <= t < 3 ==> rides_match_view(
                    *store,
                    *players,
                    req.song_id,
                    league_order()[t],
                    SpecFilter::Nearby(loc),
                    (#[trigger] resp.scores@[2].league@[t]).ride@,
                )
        }),
{
    let player = match players.find_by_steam_id(steam_player) {
        Some(p) => p,
        None => {
            return Err(RouteError::PlayerNotFound);
        },
    };
    let mut rival_ids = graph.get_rivals(player.id);
    rival_ids.push(player.id);  // the requester appears in their own rival view
    let loc = player.location_id;

    let g0 = league_rides_for(store, players, req.song_id, League::Casual, ViewFilter::Global);
    let g1 = league_rides_for(store, players, req.song_id, League::Pro, ViewFilter::Global);
    let g2 = league_rides_for(store, players, req.song_id, League::Elite, ViewFilter::Global);
    let r0 = league_rides_for(
        store,
        players,
        req.song_id,
        League::Casual,
        ViewFilter::Rival(&rival_ids),
    );
    let r1 = league_rides_for(
        store,
        players,
        req.song_id,
        League::Pro,
        ViewFilter::Rival(&rival_ids),
    );
    let r2 = league_rides_for(
        store,
        players,
        req.song_id,
        League::Elite,
        ViewFilter::Rival(&rival_ids),
    );
    let n0 = league_rides_for(
        store,
        players,
        req.song_id,
        League::Casual,
        ViewFilter::Nearby(loc),
    );
    let n1 = league_rides_for(store, players, req.song_id, League::Pro, ViewFilter::Nearby(loc));
    let n2 = league_rides_for(
        store,
        players,
        req.song_id,
        League::Elite,
        ViewFilter::Nearby(loc),
    );
    let scores: Vec<ResponseScore> = vec![
        ResponseScore { score_type: Leaderboard::Global, league: vec![g0, g1, g2] },
        ResponseScore { score_type: Leaderboard::Friend, league: vec![r0, r1, r2] },
        ResponseScore { score_type: Leaderboard::Nearby, league: vec![n0, n1, n2] },
    ];
    proof {
        assert(league_order()[0] == League::Casual);
        assert(league_order()[1] == League::Pro);
        assert(league_order()[2] == League::Elite);
    }
    Ok(GetRidesResponse { status: "allgood".to_owned(), scores, server_time: 143 })
}


/// Ride lists equal in content satisfy the same view description.
proof fn lemma_rides_match_like(
    store: ScoreStore,
    players: PlayerDirectory,
    song_id: i32,
    league: League,
    filter: SpecFilter,
    a: Seq<Ride>,
    b: Seq<Ride>,
)
    requires
        rides_match_view(store, players, song_id, league, filter, a),
        b.len() == a.len(),
        forall|i: int| 0 <= i < a.len() ==> ride_like(#[trigger] b[i], a[i]),
    ensures
        rides_match_view(store, players, song_id, league, filter, b),
{
    assert forall|rd: Ride| #![trigger b.contains(rd)]
        b.contains(rd) implies (exists|i: int|
        view_match(store, players, song_id, league, filter, i) && ride_presents(
            rd,
            store.rows()[i],
            players,
        )) by {
        let k = choose|k: int| 0 <= k < b.len() && b[k] == rd;
        assert(a.contains(a[k]));
        let i = choose|i: int|
            view_match(store, players, song_id, league, filter, i) && ride_presents(
                a[k],
                store.rows()[i],
                players,
            );
        assert(ride_presents(rd, store.rows()[i], players));
        assert(view_match(store, players, song_id, league, filter, i) && ride_presents(
            rd,
            store.rows()[i],
            players,
        ));
    }
    assert forall|i: int|
        view_match(store, players, song_id, league, filter, i) implies (exists|k: int|
        0 <= k < b.len() && (#[trigger] b[k]).traffic_count == store.rows()[i].id) by {
        let k = choose|k: int|
            0 <= k < a.len() && (#[trigger] a[k]).traffic_count == store.rows()[i].id;
        assert(b[k].traffic_count == store.rows()[i].id);
    }
    assert forall|k: int, l: int| 0 <= k < l < b.len() implies (#[trigger] b[k]).traffic_count != (
    #[trigger] b[l]).traffic_count by {
        assert(ride_like(b[k], a[k]));
        assert(ride_like(b[l], a[l]));
    }
    assert forall|k: int, l: int| 0 <= k < l < b.len() implies ride_preceq(
        #[trigger] b[k],
        #[trigger] b[l],
    ) by {
        assert(ride_like(b[k], a[k]));
        assert(ride_like(b[l], a[l]));
        assert(ride_preceq(a[k], a[l]));
    }
}

/// One league's rides for one view, through the cache: a hit answers
/// with the cached rides, a miss computes the view from the store and
/// caches it. The request never fails for a cache miss.
pub fn view_rides_cached(
    store: &ScoreStore,
    players: &PlayerDirectory,
    cache: &mut LeaderboardCache,
    song_id: i32,
    league: League,
    view: Leaderboard,
    filter: ViewFilter,
) -> (r: Vec<Ride>)
    requires
        store.wf(),
        players.wf(),
    ensures
        // a hit answers with the cached rides, content for content
        old(cache).spec_get(song_id, league, view) matches Some(e) ==> {
            &&& r@.len() == e.rides@.len()
            &&& (forall|i: int| 0 <= i < r@.len() ==> ride_like(#[trigger] r@[i], e.rides@[i]))
            &&& final(cache).entries() == old(cache).entries()
        },
        // a miss falls back to the store and caches what it computed
        old(cache).spec_get(song_id, league, view) is None ==> {
            &&& rides_match_view(
                *store,
                *players,
                song_id,
                league,
                filter_spec(filter),
                r@,
            )
            &&& final(cache).spec_get(song_id, league, view) matches Some(e) && e.rides@.len()
                == r@.len() && (forall|i: int|
                0 <= i < r@.len() ==> ride_like(#[trigger] r@[i], e.rides@[i]))
        },
{
    match cache.get(song_id, league, view) {
        Some(cached) => clone_rides(cached),
        None => {
            let ghost fs = filter_spec(filter);
            let lr = league_rides_for(store, players, song_id, league, filter);
            let copy = clone_rides(&lr.ride);
            proof {
                lemma_rides_match_like(
                    *store,
                    *players,
                    song_id,
                    league,
                    fs,
                    lr.ride@,
                    copy@,
                );
            }
            cache.put(song_id, league, view, lr.ride);
            copy
        },
    }
}

} // verus!
