//! Closed enumerations shared by the whole ranking core.

use vstd::prelude::*;

verus! {

/// Skill tier a score is segmented by. The set is closed: every match
/// over it is exhaustive, so adding a league is a compile-time change.
#[derive(Clone, Copy, Debug, PartialEq, Eq, Structural)]
pub enum League {
    Casual,
    Pro,
    Elite,
}

/// The three ranked views a leaderboard request is answered with.
#[derive(Clone, Copy, Debug, PartialEq, Eq, Structural)]
pub enum Leaderboard {
    Global,
    Friend,
    Nearby,
}

/// Vehicle/character selector carried with a score. The concrete roster
/// lives with the client; the core only stores and echoes the code.
#[derive(Clone, Copy, Debug, PartialEq, Eq, Structural)]
pub struct Character(pub i32);

/// The fixed league enumeration order every leaderboard reply follows.
pub open spec fn league_order() -> Seq<League> {
    seq![League::Casual, League::Pro, League::Elite]
}

/// The leagues in their fixed enumeration order.
pub fn all_leagues() -> (r: Vec<League>)
    ensures
        r@ == league_order(),
{
    let r: Vec<League> = vec![League::Casual, League::Pro, League::Elite];
    proof {
        assert(r@ =~= league_order());
    }
    r
}

} // verus!
