use wavebreaker_core::cache::LeaderboardCache;
use wavebreaker_core::errors::RouteError;
use wavebreaker_core::game_types::{Character, League, Leaderboard};
use wavebreaker_core::gameplay::{
    fetch_song_id, get_rides, send_ride, send_ride_at, view_rides_cached, GetRidesRequest,
    SendRideRequest, SongIdRequest,
};
use wavebreaker_core::leaderboard::ViewFilter;
use wavebreaker_core::players::{Player, PlayerDirectory};
use wavebreaker_core::rivalries::RivalryGraph;
use wavebreaker_core::scores::ScoreStore;
use wavebreaker_core::songs::SongRegistry;

fn player(id: i32, name: &str, steam: u64, location: Option<i32>) -> Player {
    Player { id, username: name.to_string(), steam_id: steam, location_id: location }
}

fn ride_req(song_id: i32, score: i32, league: League) -> SendRideRequest {
    SendRideRequest {
        song_id,
        score,
        vehicle: Character(4),
        league,
        feats: "Clean Finish, Match 11".to_string(),
        song_length: 18000,
        track_shape: "100x200x300".to_string(),
        density: 7,
        xstats: "1,2,3".to_string(),
        gold_threshold: 500000,
        iss: 5,
        isj: 6,
    }
}

struct World {
    store: ScoreStore,
    cache: LeaderboardCache,
    players: PlayerDirectory,
    graph: RivalryGraph,
    songs: SongRegistry,
    song_id: i32,
}

fn world() -> World {
    let mut players = PlayerDirectory::new();
    assert!(players.add_player(player(1, "Ada", 1001, Some(30))));
    assert!(players.add_player(player(2, "Brin", 1002, Some(30))));
    assert!(players.add_player(player(3, "Cleo", 1003, Some(40))));
    let mut songs = SongRegistry::new();
    let song = songs
        .find_or_create(&"Night Drive".to_string(), &"The Breakers".to_string())
        .expect("registry has room");
    World {
        store: ScoreStore::new(),
        cache: LeaderboardCache::new(),
        players,
        graph: RivalryGraph::new(),
        songs,
        song_id: song.id,
    }
}

fn submit(w: &mut World, steam: u64, score: i32, league: League, now: i64) -> i32 {
    let req = ride_req(w.song_id, score, league);
    let resp = send_ride_at(
        &mut w.store,
        &mut w.cache,
        &w.players,
        &w.graph,
        &w.songs,
        steam,
        req,
        now,
    )
    .expect("submission accepted");
    assert_eq!(resp.status, "allgood");
    assert_eq!(resp.song_id, w.song_id);
    resp.beat_score.my_score
}

fn top_global_score(w: &World, league: League) -> Vec<(String, i32)> {
    let resp = get_rides(
        &w.store,
        &w.players,
        &w.graph,
        1001,
        &GetRidesRequest { song_id: w.song_id },
    )
    .expect("requester registered");
    let lr = &resp.scores[0].league[match league {
        League::Casual => 0,
        League::Pro => 1,
        League::Elite => 2,
    }];
    lr.ride.iter().map(|r| (r.username.clone(), r.score)).collect()
}

#[test]
fn best_score_kept_over_sequence() {
    let mut w = world();
    submit(&mut w, 1001, 50, League::Casual, 100);
    submit(&mut w, 1001, 80, League::Casual, 200);
    submit(&mut w, 1001, 70, League::Casual, 300);
    submit(&mut w, 1001, 80, League::Casual, 400);
    let rides = top_global_score(&w, League::Casual);
    assert_eq!(rides, vec![("Ada".to_string(), 80)]);
    // the timestamp belongs to the submission that first reached 80
    let resp = get_rides(
        &w.store,
        &w.players,
        &w.graph,
        1001,
        &GetRidesRequest { song_id: w.song_id },
    )
    .unwrap();
    assert_eq!(resp.scores[0].league[0].ride[0].time, 200);
}

#[test]
fn lower_resubmission_keeps_row_and_timestamp() {
    let mut w = world();
    submit(&mut w, 1001, 90, League::Pro, 1000);
    submit(&mut w, 1001, 40, League::Pro, 2000);
    let resp = get_rides(
        &w.store,
        &w.players,
        &w.graph,
        1001,
        &GetRidesRequest { song_id: w.song_id },
    )
    .unwrap();
    assert_eq!(resp.scores[0].league[1].ride[0].score, 90);
    assert_eq!(resp.scores[0].league[1].ride[0].time, 1000);
}

#[test]
fn no_dethrone_sentinel() {
    let mut w = world();
    let req = ride_req(w.song_id, 123456, League::Casual);
    let resp = send_ride_at(
        &mut w.store,
        &mut w.cache,
        &w.players,
        &w.graph,
        &w.songs,
        1001,
        req,
        50,
    )
    .unwrap();
    let b = resp.beat_score;
    assert!(!b.dethroned);
    assert!(!b.friend);
    assert_eq!(b.rival_name, "No one");
    assert_eq!(b.rival_score, 143);
    assert_eq!(b.my_score, 0);
    assert_eq!(b.reign_seconds, 0);
}

#[test]
fn own_previous_score_does_not_prevent_sentinel() {
    // the submitter's own earlier row is not "another player's top"
    let mut w = world();
    submit(&mut w, 1001, 70, League::Casual, 10);
    let req = ride_req(w.song_id, 80, League::Casual);
    let resp = send_ride_at(
        &mut w.store,
        &mut w.cache,
        &w.players,
        &w.graph,
        &w.songs,
        1001,
        req,
        20,
    )
    .unwrap();
    assert!(!resp.beat_score.dethroned);
    assert_eq!(resp.beat_score.rival_score, 143);
}

#[test]
fn dethrone_reports_reign_and_scores() {
    let mut w = world();
    submit(&mut w, 1002, 60, League::Casual, 1000);
    let req = ride_req(w.song_id, 90, League::Casual);
    let resp = send_ride_at(
        &mut w.store,
        &mut w.cache,
        &w.players,
        &w.graph,
        &w.songs,
        1001,
        req,
        1040,
    )
    .unwrap();
    let b = resp.beat_score;
    assert!(b.dethroned);
    assert_eq!(b.rival_name, "Brin");
    assert_eq!(b.rival_score, 60);
    assert_eq!(b.my_score, 90);
    assert_eq!(b.reign_seconds, 40);
}

#[test]
fn lower_submission_does_not_dethrone() {
    let mut w = world();
    submit(&mut w, 1002, 60, League::Casual, 1000);
    let req = ride_req(w.song_id, 60, League::Casual);
    let resp = send_ride_at(
        &mut w.store,
        &mut w.cache,
        &w.players,
        &w.graph,
        &w.songs,
        1001,
        req,
        1100,
    )
    .unwrap();
    assert!(!resp.beat_score.dethroned);
    assert_eq!(resp.beat_score.rival_score, 60);
}

#[test]
fn friend_flag_requires_mutual_rivalry() {
    let mut w = world();
    w.graph.add_rivalry(1, 2);
    submit(&mut w, 1002, 60, League::Casual, 1000);
    let resp = send_ride_at(
        &mut w.store,
        &mut w.cache,
        &w.players,
        &w.graph,
        &w.songs,
        1001,
        ride_req(w.song_id, 90, League::Casual),
        1040,
    )
    .unwrap();
    assert!(resp.beat_score.dethroned);
    assert!(!resp.beat_score.friend, "one-directional rivalry is not a friendship");

    w.graph.add_rivalry(2, 1);
    let resp = send_ride_at(
        &mut w.store,
        &mut w.cache,
        &w.players,
        &w.graph,
        &w.songs,
        1003,
        ride_req(w.song_id, 95, League::Casual),
        1050,
    )
    .unwrap();
    assert!(!resp.beat_score.friend, "Cleo has no rivalry with Ada");

    let mut w2 = world();
    w2.graph.add_rivalry(1, 2);
    w2.graph.add_rivalry(2, 1);
    submit(&mut w2, 1002, 60, League::Casual, 1000);
    let resp = send_ride_at(
        &mut w2.store,
        &mut w2.cache,
        &w2.players,
        &w2.graph,
        &w2.songs,
        1001,
        ride_req(w2.song_id, 90, League::Casual),
        1040,
    )
    .unwrap();
    assert!(resp.beat_score.friend, "mutual rivalry is surfaced as friendship");
}

#[test]
fn isolation_either_order_keeps_eighty() {
    let mut a = world();
    submit(&mut a, 1001, 50, League::Casual, 10);
    submit(&mut a, 1001, 80, League::Casual, 20);
    assert_eq!(top_global_score(&a, League::Casual), vec![("Ada".to_string(), 80)]);

    let mut b = world();
    submit(&mut b, 1001, 80, League::Casual, 10);
    submit(&mut b, 1001, 50, League::Casual, 20);
    assert_eq!(top_global_score(&b, League::Casual), vec![("Ada".to_string(), 80)]);
}

#[test]
fn leaderboard_order_and_views() {
    let mut w = world();
    w.graph.add_rivalry(1, 2);
    // insertion order deliberately scrambled
    submit(&mut w, 1003, 70, League::Casual, 10);
    submit(&mut w, 1001, 50, League::Casual, 20);
    submit(&mut w, 1002, 90, League::Casual, 30);
    submit(&mut w, 1002, 40, League::Pro, 40);

    let resp = get_rides(
        &w.store,
        &w.players,
        &w.graph,
        1001,
        &GetRidesRequest { song_id: w.song_id },
    )
    .unwrap();
    assert_eq!(resp.status, "allgood");
    assert_eq!(resp.server_time, 143);
    assert_eq!(resp.scores.len(), 3);
    assert_eq!(resp.scores[0].score_type, Leaderboard::Global);
    assert_eq!(resp.scores[1].score_type, Leaderboard::Friend);
    assert_eq!(resp.scores[2].score_type, Leaderboard::Nearby);
    for view in &resp.scores {
        assert_eq!(view.league.len(), 3);
        assert_eq!(view.league[0].league_id, League::Casual);
        assert_eq!(view.league[1].league_id, League::Pro);
        assert_eq!(view.league[2].league_id, League::Elite);
    }

    // global casual: score descending
    let global: Vec<(String, i32)> = resp.scores[0].league[0]
        .ride
        .iter()
        .map(|r| (r.username.clone(), r.score))
        .collect();
    assert_eq!(
        global,
        vec![
            ("Brin".to_string(), 90),
            ("Cleo".to_string(), 70),
            ("Ada".to_string(), 50),
        ]
    );

    // rival casual: requester and their marked rivals only
    let rival: Vec<(String, i32)> = resp.scores[1].league[0]
        .ride
        .iter()
        .map(|r| (r.username.clone(), r.score))
        .collect();
    assert_eq!(rival, vec![("Brin".to_string(), 90), ("Ada".to_string(), 50)]);

    // nearby casual: same location id (30) only
    let nearby: Vec<(String, i32)> = resp.scores[2].league[0]
        .ride
        .iter()
        .map(|r| (r.username.clone(), r.score))
        .collect();
    assert_eq!(nearby, vec![("Brin".to_string(), 90), ("Ada".to_string(), 50)]);

    // pro league global holds the one pro row
    let pro: Vec<(String, i32)> = resp.scores[0].league[1]
        .ride
        .iter()
        .map(|r| (r.username.clone(), r.score))
        .collect();
    assert_eq!(pro, vec![("Brin".to_string(), 40)]);
    assert!(resp.scores[0].league[2].ride.is_empty());

    // ride fields carry the stored attributes
    let top = &resp.scores[0].league[0].ride[0];
    assert_eq!(top.time, 30);
    assert_eq!(top.feats, "Clean Finish, Match 11");
    assert_eq!(top.song_length, 18000);
}

#[test]
fn requester_without_location_sees_empty_nearby() {
    let mut w = world();
    assert!(w.players.add_player(player(9, "Drif", 1009, None)));
    submit(&mut w, 1001, 50, League::Casual, 20);
    let resp = get_rides(
        &w.store,
        &w.players,
        &w.graph,
        1009,
        &GetRidesRequest { song_id: w.song_id },
    )
    .unwrap();
    assert!(resp.scores[2].league[0].ride.is_empty());
}

#[test]
fn cache_invalidated_by_changing_write() {
    let mut w = world();
    submit(&mut w, 1001, 50, League::Casual, 10);
    // warm the cache for the (song, league) global view
    let first = view_rides_cached(
        &w.store,
        &w.players,
        &mut w.cache,
        w.song_id,
        League::Casual,
        Leaderboard::Global,
        ViewFilter::Global,
    );
    assert_eq!(first.len(), 1);
    assert_eq!(first[0].score, 50);
    assert!(w
        .cache
        .get(w.song_id, League::Casual, Leaderboard::Global)
        .is_some());

    // a write that changes the stored score drops every cached view of the key
    submit(&mut w, 1001, 80, League::Casual, 20);
    assert!(w
        .cache
        .get(w.song_id, League::Casual, Leaderboard::Global)
        .is_none());

    // the next read regenerates the view from the store
    let second = view_rides_cached(
        &w.store,
        &w.players,
        &mut w.cache,
        w.song_id,
        League::Casual,
        Leaderboard::Global,
        ViewFilter::Global,
    );
    assert_eq!(second.len(), 1);
    assert_eq!(second[0].score, 80);
}

#[test]
fn cache_kept_by_non_changing_write() {
    let mut w = world();
    submit(&mut w, 1001, 50, League::Casual, 10);
    view_rides_cached(
        &w.store,
        &w.players,
        &mut w.cache,
        w.song_id,
        League::Casual,
        Leaderboard::Global,
        ViewFilter::Global,
    );
    submit(&mut w, 1001, 30, League::Casual, 20);
    assert!(w
        .cache
        .get(w.song_id, League::Casual, Leaderboard::Global)
        .is_some());
}

#[test]
fn errors_for_unknown_player_song_and_bad_fields() {
    let mut w = world();
    let r = send_ride_at(
        &mut w.store,
        &mut w.cache,
        &w.players,
        &w.graph,
        &w.songs,
        7777,
        ride_req(w.song_id, 10, League::Casual),
        1,
    );
    assert_eq!(r.unwrap_err(), RouteError::PlayerNotFound);

    let r = send_ride_at(
        &mut w.store,
        &mut w.cache,
        &w.players,
        &w.graph,
        &w.songs,
        1001,
        ride_req(w.song_id + 55, 10, League::Casual),
        1,
    );
    assert_eq!(r.unwrap_err(), RouteError::SongNotFound);

    let mut bad = ride_req(w.song_id, 10, League::Casual);
    bad.track_shape = "12x".to_string();
    let r = send_ride_at(
        &mut w.store,
        &mut w.cache,
        &w.players,
        &w.graph,
        &w.songs,
        1001,
        bad,
        1,
    );
    assert_eq!(r.unwrap_err(), RouteError::Validation);

    let mut bad = ride_req(w.song_id, 10, League::Casual);
    bad.xstats = "1,two,3".to_string();
    let r = send_ride_at(
        &mut w.store,
        &mut w.cache,
        &w.players,
        &w.graph,
        &w.songs,
        1001,
        bad,
        1,
    );
    assert_eq!(r.unwrap_err(), RouteError::Validation);

    let r = get_rides(
        &w.store,
        &w.players,
        &w.graph,
        7777,
        &GetRidesRequest { song_id: w.song_id },
    );
    assert_eq!(r.unwrap_err(), RouteError::PlayerNotFound);
}

#[test]
fn send_ride_with_wall_clock() {
    let mut w = world();
    let resp = send_ride(
        &mut w.store,
        &mut w.cache,
        &w.players,
        &w.graph,
        &w.songs,
        1001,
        ride_req(w.song_id, 33, League::Elite),
    )
    .unwrap();
    assert_eq!(resp.status, "allgood");
    assert_eq!(resp.beat_score.rival_score, 143);
}

#[test]
fn song_ids_are_stable_per_title_and_artist() {
    let mut songs = SongRegistry::new();
    let req = SongIdRequest {
        artist: "The Breakers".to_string(),
        song: "Night Drive".to_string(),
        league: League::Casual,
    };
    let a = fetch_song_id(&mut songs, &req).unwrap();
    assert_eq!(a.status, "allgood");
    let b = fetch_song_id(&mut songs, &req).unwrap();
    assert_eq!(a.song_id, b.song_id);
    let other = SongIdRequest {
        artist: "The Breakers".to_string(),
        song: "Day Drive".to_string(),
        league: League::Casual,
    };
    let c = fetch_song_id(&mut songs, &other).unwrap();
    assert_ne!(c.song_id, a.song_id);
    // the repeated lookup created no second row: the id counter moved once
    assert_eq!(c.song_id, a.song_id + 1);
}

#[test]
fn rivalry_graph_mutuality_and_rivals() {
    let mut g = RivalryGraph::new();
    g.add_rivalry(1, 2);
    g.add_rivalry(1, 3);
    g.add_rivalry(2, 1);
    g.add_rivalry(1, 1); // self edges are ignored
    g.add_rivalry(1, 2); // duplicates are ignored
    assert!(g.is_mutual(1, 2));
    assert!(g.is_mutual(2, 1));
    assert!(!g.is_mutual(1, 3));
    assert!(!g.is_mutual(3, 1));
    assert_eq!(g.get_rivals(1), vec![2, 3]);
    assert_eq!(g.get_rivals(2), vec![1]);
    assert_eq!(g.get_rivals(3), Vec::<i32>::new());
}
