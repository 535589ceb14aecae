use std::sync::Arc;
use std::time::Duration;

use wavebreaker_core::game_types::{League, Leaderboard};
use wavebreaker_core::gameplay::{get_rides, send_ride_at, GetRidesRequest, SendRideRequest};
use wavebreaker_core::cache::LeaderboardCache;
use wavebreaker_core::game_types::Character;
use wavebreaker_core::leaderboard::{query_view, ViewFilter};
use wavebreaker_core::players::{Player, PlayerDirectory};
use wavebreaker_core::rivalries::RivalryGraph;
use wavebreaker_core::scores::ScoreStore;
use wavebreaker_core::songs::SongRegistry;

fn submit(
    store: &mut ScoreStore,
    cache: &mut LeaderboardCache,
    players: &PlayerDirectory,
    graph: &RivalryGraph,
    songs: &SongRegistry,
    steam: u64,
    score: i32,
    now: i64,
) {
    let req = SendRideRequest {
        song_id: 1,
        score,
        vehicle: Character(1),
        league: League::Casual,
        feats: String::new(),
        song_length: 9000,
        track_shape: "1x2".to_string(),
        density: 1,
        xstats: "4,5".to_string(),
        gold_threshold: 100,
        iss: 0,
        isj: 0,
    };
    send_ride_at(store, cache, players, graph, songs, steam, req, now).expect("accepted");
}

/// The three per-league views are computed by three concurrent tasks with
/// deliberately different delays; the assembled result is identical to the
/// sequential retrieval, whichever task finishes first.
#[test]
fn fan_out_order_is_stable_under_skewed_delays() {
    let mut players = PlayerDirectory::new();
    assert!(players.add_player(Player {
        id: 1,
        username: "Ada".to_string(),
        steam_id: 1001,
        location_id: Some(5),
    }));
    assert!(players.add_player(Player {
        id: 2,
        username: "Brin".to_string(),
        steam_id: 1002,
        location_id: Some(5),
    }));
    let mut songs = SongRegistry::new();
    songs
        .find_or_create(&"Night Drive".to_string(), &"The Breakers".to_string())
        .unwrap();
    let mut store = ScoreStore::new();
    let mut cache = LeaderboardCache::new();
    let mut graph = RivalryGraph::new();
    graph.add_rivalry(1, 2);
    submit(&mut store, &mut cache, &players, &graph, &songs, 1001, 40, 10);
    submit(&mut store, &mut cache, &players, &graph, &songs, 1002, 90, 20);

    let sequential = get_rides(&store, &players, &graph, 1001, &GetRidesRequest { song_id: 1 })
        .unwrap();

    let store = Arc::new(store);
    let players = Arc::new(players);
    let rt = tokio::runtime::Builder::new_current_thread()
        
        .enable_time()
        .build()
        .unwrap();
    let concurrent: Vec<(Leaderboard, Vec<(String, i32)>)> = rt.block_on(async {
        let mk = |delay_ms: u64, tag: Leaderboard| {
            let store = Arc::clone(&store);
            let players = Arc::clone(&players);
            tokio::spawn(async move {
                tokio::time::sleep(Duration::from_millis(delay_ms)).await;
                let filter_ids: Vec<i32> = vec![2, 1];
                let ws = match tag {
                    Leaderboard::Global => {
                        query_view(&store, &players, 1, League::Casual, ViewFilter::Global)
                    },
                    Leaderboard::Friend => query_view(
                        &store,
                        &players,
                        1,
                        League::Casual,
                        ViewFilter::Rival(&filter_ids),
                    ),
                    Leaderboard::Nearby => query_view(
                        &store,
                        &players,
                        1,
                        League::Casual,
                        ViewFilter::Nearby(Some(5)),
                    ),
                };
                (
                    tag,
                    ws.into_iter()
                        .map(|s| (s.player.username, s.score.score))
                        .collect::<Vec<_>>(),
                )
            })
        };
        // the slowest task is the first in the output order
        let a = mk(40, Leaderboard::Global);
        let b = mk(1, Leaderboard::Friend);
        let c = mk(15, Leaderboard::Nearby);
        let ra = a.await.unwrap();
        let rb = b.await.unwrap();
        let rc = c.await.unwrap();
        vec![ra, rb, rc]
    });

    assert_eq!(concurrent[0].0, Leaderboard::Global);
    assert_eq!(concurrent[1].0, Leaderboard::Friend);
    assert_eq!(concurrent[2].0, Leaderboard::Nearby);
    for (i, (_, rows)) in concurrent.iter().enumerate() {
        let expect: Vec<(String, i32)> = sequential.scores[i].league[0]
            .ride
            .iter()
            .map(|r| (r.username.clone(), r.score))
            .collect();
        assert_eq!(rows, &expect);
    }
}
