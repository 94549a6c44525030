use vstd::prelude::*;
use vstd::string::*;
use crate::model::{BetHistoryModel, UserModel};

verus! {

/// Coins a new player starts with.
pub const STARTING_COINS: i64 = 100;

/// The record of a player seen for the first time at Unix time `now`: the
/// starting coins, no businesses, no bets, all counters at zero, and `now`
/// as the time of the last collection.
pub fn new_user(user_id: &str, now: i64) -> (user: UserModel)
    ensures
        user._id@ == user_id@,
        user.coins == STARTING_COINS,
        user.last_reward == now,
        user.businesses@.len() == 0,
        user.highlow_streak == 0,
        user.bets@.len() == 0,
        user.total_won == 0,
        user.total_lost == 0,
        user.wins == 0,
        user.losses == 0,
{
    UserModel {
        _id: String::from_str(user_id),
        coins: STARTING_COINS,
        last_reward: now,
        businesses: Vec::new(),
        highlow_streak: 0,
        bets: Vec::new(),
        total_won: 0,
        total_lost: 0,
        wins: 0,
        losses: 0,
    }
}

/// The word stored as the result of a bet.
pub open spec fn bet_result_word(won: bool) -> Seq<char> {
    if won {
        seq!['v', 'i', 't', 'o', 'r', 'i', 'a']
    } else {
        seq!['d', 'e', 'r', 'r', 'o', 't', 'a']
    }
}

/// The history entry of a bet of `value` coins on `minigame` placed at
/// `datetime`: its result reads "vitoria" when won and "derrota" when lost.
pub fn new_bet_record(minigame: &str, value: i64, won: bool, datetime: i64) -> (bet:
    BetHistoryModel)
    ensures
        bet.minigame@ == minigame@,
        bet.value == value,
        bet.result@ == bet_result_word(won),
        bet.datetime == datetime,
{
    let result = if won {
        let word = "vitoria";
        proof {
            reveal_strlit("vitoria");
        }
        String::from_str(word)
    } else {
        let word = "derrota";
        proof {
            reveal_strlit("derrota");
        }
        String::from_str(word)
    };
    assert(result@ =~= bet_result_word(won));
    BetHistoryModel { minigame: String::from_str(minigame), value, result, datetime }
}

/// The betting summary shown on a profile: `(total_won, total_lost, wins,
/// losses, total_bets, net)`, where the win and loss counts are cast to
/// `usize` with `as`, `total_bets` is their sum cast back to `i64`, and
/// `net` is the amount won minus the amount lost.
pub fn calculate_bet_stats(user_db: &UserModel) -> (stats: (i64, i64, usize, usize, i64, i64))
    requires
        (user_db.wins as usize) + (user_db.losses as usize) <= usize::MAX,
        i64::MIN <= user_db.total_won - user_db.total_lost <= i64::MAX,
    ensures
        stats.0 == user_db.total_won,
        stats.1 == user_db.total_lost,
        stats.2 == user_db.wins as usize,
        stats.3 == user_db.losses as usize,
        stats.4 == ((user_db.wins as usize) + (user_db.losses as usize)) as i64,
        stats.5 == user_db.total_won - user_db.total_lost,
{
    let total_won = user_db.total_won;
    let total_lost = user_db.total_lost;
    let wins = user_db.wins as usize;
    let losses = user_db.losses as usize;
    let net = total_won - total_lost;
    let total_bets = (wins + losses) as i64;
    (total_won, total_lost, wins, losses, total_bets, net)
}

} // verus!
