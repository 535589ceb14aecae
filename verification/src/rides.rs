//! Display rows of a leaderboard view and their assembly per league.

use vstd::prelude::*;
use crate::game_types::{Character, League, Leaderboard};
use crate::scores::ScoreWithPlayer;

verus! {

/// One leaderboard entry as the client displays it.
#[derive(Debug)]
pub struct Ride {
    pub username: String,
    pub score: i32,
    pub vehicle_id: Character,
    /// Submission time, seconds since the Unix epoch.
    pub time: i64,
    pub feats: String,
    /// In centiseconds (milliseconds / 10).
    pub song_length: i32,
    pub traffic_count: i32,
}

impl Ride {
    pub fn clone_ride(&self) -> (r: Ride)
        ensures
            ride_like(r, *self),
    {
        Ride {
            username: self.username.clone(),
            score: self.score,
            vehicle_id: self.vehicle_id,
            time: self.time,
            feats: self.feats.clone(),
            song_length: self.song_length,
            traffic_count: self.traffic_count,
        }
    }
}

/// The two rides carry the same data (string fields compared by content).
pub open spec fn ride_like(a: Ride, b: Ride) -> bool {
    &&& a.username@ == b.username@
    &&& a.score == b.score
    &&& a.vehicle_id == b.vehicle_id
    &&& a.time == b.time
    &&& a.feats@ == b.feats@
    &&& a.song_length == b.song_length
    &&& a.traffic_count == b.traffic_count
}

/// The ride displays exactly this score/player join row.
pub open spec fn ride_of(r: Ride, s: ScoreWithPlayer) -> bool {
    &&& r.username@ == s.player.username@
    &&& r.score == s.score.score
    &&& r.vehicle_id == s.score.vehicle
    &&& r.time == s.score.submitted_at
    &&& r.feats@ == s.score.feats@
    &&& r.song_length == s.score.song_length
    &&& r.traffic_count == s.score.id
}

/// Copy a ride list for display, keeping every field's content.
pub fn clone_rides(v: &Vec<Ride>) -> (r: Vec<Ride>)
    ensures
        r@.len() == v@.len(),
        forall|i: int| 0 <= i < v@.len() ==> ride_like(#[trigger] r@[i], v@[i]),
{
    let n = v.len();
    let mut r: Vec<Ride> = Vec::new();
    let mut i: usize = 0;
    while i < n
        invariant
            n == v@.len(),
            0 <= i <= n,
            r@.len() == i,
            forall|k: int| 0 <= k < i ==> ride_like(#[trigger] r@[k], v@[k]),
        decreases n - i,
    {
        r.push(v[i].clone_ride());
        i += 1;
    }
    r
}

/// The ranked rides of one league, in the order the view produced them.
#[derive(Debug)]
pub struct LeagueRides {
    pub league_id: League,
    pub ride: Vec<Ride>,
}

/// One ranked view (global, rival or nearby) over every league.
#[derive(Debug)]
pub struct ResponseScore {
    pub score_type: Leaderboard,
    pub league: Vec<LeagueRides>,
}

/// Turn one league's ranked join rows into display rides, keeping order.
pub fn create_league_rides(league: League, scores: Vec<ScoreWithPlayer>) -> (r: LeagueRides)
    ensures
        r.league_id == league,
        r.ride@.len() == scores@.len(),
        forall|i: int| 0 <= i < scores@.len() ==> ride_of(#[trigger] r.ride@[i], scores@[i]),
{
    let mut rides: Vec<Ride> = Vec::new();
    let n = scores.len();
    let mut i: usize = 0;
    while i < n
        invariant
            n == scores@.len(),
            0 <= i <= n,
            rides@.len() == i,
            forall|k: int| 0 <= k < i ==> ride_of(#[trigger] rides@[k], scores@[k]),
        decreases n - i,
    {
        let with_player = &scores[i];
        rides.push(
            Ride {
                username: with_player.player.username.clone(),
                score: with_player.score.score,
                vehicle_id: with_player.score.vehicle,
                time: with_player.score.submitted_at,
                feats: with_player.score.feats.clone(),
                song_length: with_player.score.song_length,
                traffic_count: with_player.score.id,
            },
        );
        i += 1;
    }
    LeagueRides { league_id: league, ride: rides }
}

} // verus!
