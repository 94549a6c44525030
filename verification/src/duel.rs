use vstd::prelude::*;

verus! {

/// Why a duel does not take place.
#[derive(PartialEq, Eq, Structural, Clone, Copy, Debug)]
pub enum DuelRefusal {
    /// The stake is zero or negative.
    InvalidStake,
    /// The challenger named themselves.
    SelfDuel,
    /// The challenged member is a bot.
    TargetIsBot,
    /// The challenger has fewer coins than the stake.
    ChallengerLacksCoins,
    /// The challenged member has fewer coins than the stake.
    TargetLacksCoins,
}

/// The checks made on a challenge before anyone's coins are read, in order.
pub open spec fn duel_request_check(aposta: i64, same_member: bool, target_is_bot: bool) -> Result<
    (),
    DuelRefusal,
> {
    if aposta <= 0 {
        Err(DuelRefusal::InvalidStake)
    } else if same_member {
        Err(DuelRefusal::SelfDuel)
    } else if target_is_bot {
        Err(DuelRefusal::TargetIsBot)
    } else {
        Ok(())
    }
}

/// Checks a challenge of `aposta` coins: the stake must be positive, the two
/// members distinct, and the challenged member not a bot.
pub fn check_duel_request(aposta: i64, same_member: bool, target_is_bot: bool) -> (checked: Result<
    (),
    DuelRefusal,
>)
    ensures
        checked == duel_request_check(aposta, same_member, target_is_bot),
        checked is Ok <==> (aposta > 0 && !same_member && !target_is_bot),
        aposta <= 0 ==> checked == Err::<(), DuelRefusal>(DuelRefusal::InvalidStake),
        (aposta > 0 && same_member) ==> checked == Err::<(), DuelRefusal>(DuelRefusal::SelfDuel),
        (aposta > 0 && !same_member && target_is_bot) ==> checked == Err::<(), DuelRefusal>(
            DuelRefusal::TargetIsBot,
        ),
{
    if aposta <= 0 {
        Err(DuelRefusal::InvalidStake)
    } else if same_member {
        Err(DuelRefusal::SelfDuel)
    } else if target_is_bot {
        Err(DuelRefusal::TargetIsBot)
    } else {
        Ok(())
    }
}

/// The funds check of a duel: the challenger first, then the challenged.
pub open spec fn duel_funds_check(aposta: i64, challenger_coins: i64, target_coins: i64) -> Result<
    (),
    DuelRefusal,
> {
    if challenger_coins < aposta {
        Err(DuelRefusal::ChallengerLacksCoins)
    } else if target_coins < aposta {
        Err(DuelRefusal::TargetLacksCoins)
    } else {
        Ok(())
    }
}

/// Checks that both members can cover the stake; made when the challenge is
/// issued and again when it is accepted.
pub fn check_duel_funds(aposta: i64, challenger_coins: i64, target_coins: i64) -> (checked: Result<
    (),
    DuelRefusal,
>)
    ensures
        checked == duel_funds_check(aposta, challenger_coins, target_coins),
        checked is Ok <==> (challenger_coins >= aposta && target_coins >= aposta),
        challenger_coins < aposta ==> checked == Err::<(), DuelRefusal>(
            DuelRefusal::ChallengerLacksCoins,
        ),
        (challenger_coins >= aposta && target_coins < aposta) ==> checked == Err::<
            (),
            DuelRefusal,
        >(DuelRefusal::TargetLacksCoins),
{
    if challenger_coins < aposta {
        Err(DuelRefusal::ChallengerLacksCoins)
    } else if target_coins < aposta {
        Err(DuelRefusal::TargetLacksCoins)
    } else {
        Ok(())
    }
}

/// `rand::random::<bool>()`: a fair coin.  Nothing is claimed of the result.
#[verifier::external_body]
fn coin_flip() -> bool {
    rand::random::<bool>()
}

/// The coin movements of a decided duel: both members pay the stake, then
/// the winner receives the prize.
pub struct DuelSettlement {
    pub winner_is_challenger: bool,
    pub stake: i64,
    pub prize: i64,
}

/// The net change of the challenger's coins in a settlement.
pub open spec fn challenger_net(s: DuelSettlement) -> int {
    -s.stake + if s.winner_is_challenger {
        s.prize as int
    } else {
        0
    }
}

/// The net change of the challenged member's coins in a settlement.
pub open spec fn target_net(s: DuelSettlement) -> int {
    -s.stake + if s.winner_is_challenger {
        0
    } else {
        s.prize as int
    }
}

/// Settles an accepted duel of `aposta` coins with `winner_is_challenger`
/// deciding the winner: each pays `aposta` and the winner receives twice it.
pub fn settle_duel(aposta: i64, winner_is_challenger: bool) -> (settlement: DuelSettlement)
    requires
        0 < aposta,
        2 * aposta <= i64::MAX,
    ensures
        settlement.winner_is_challenger == winner_is_challenger,
        settlement.stake == aposta,
        settlement.prize == 2 * aposta,
{
    DuelSettlement { winner_is_challenger, stake: aposta, prize: aposta * 2 }
}

/// Decides an accepted duel of `aposta` coins by a fair coin and settles it.
pub fn decide_duel(aposta: i64) -> (settlement: DuelSettlement)
    requires
        0 < aposta,
        2 * aposta <= i64::MAX,
    ensures
        settlement.stake == aposta,
        settlement.prize == 2 * aposta,
{
    let winner_is_challenger = coin_flip();
    settle_duel(aposta, winner_is_challenger)
}

/// A duel moves coins from the loser to the winner and creates none: with a
/// prize of twice the stake, the winner gains the stake, the loser loses it,
/// and the two changes cancel.
pub proof fn lemma_duel_is_zero_sum(s: DuelSettlement)
    requires
        s.prize == 2 * s.stake,
    ensures
        challenger_net(s) + target_net(s) == 0,
        s.winner_is_challenger ==> challenger_net(s) == s.stake && target_net(s) == -s.stake,
        !s.winner_is_challenger ==> target_net(s) == s.stake && challenger_net(s) == -s.stake,
{
}

/// A duel that passed the funds check leaves neither member below zero.
pub proof fn lemma_duel_never_overdraws(
    challenger_coins: i64,
    target_coins: i64,
    s: DuelSettlement,
)
    requires
        s.stake > 0,
        s.prize == 2 * s.stake,
        duel_funds_check(s.stake, challenger_coins, target_coins) is Ok,
    ensures
        challenger_coins + challenger_net(s) >= 0,
        target_coins + target_net(s) >= 0,
{
}

/// A challenge goes ahead only at a positive stake, between two distinct
/// members, against a member who is not a bot; a stake of zero or less is
/// refused as such before anything else is looked at.
pub proof fn lemma_duel_needs_positive_stake(aposta: i64, same_member: bool, target_is_bot: bool)
    ensures
        duel_request_check(aposta, same_member, target_is_bot) is Ok ==> aposta > 0,
        duel_request_check(aposta, same_member, target_is_bot) is Ok <==> (aposta > 0
            && !same_member && !target_is_bot),
        aposta <= 0 ==> duel_request_check(aposta, same_member, target_is_bot) == Err::<
            (),
            DuelRefusal,
        >(DuelRefusal::InvalidStake),
{
}

/// Two members who each hold at least the stake pass the funds check; if
/// either holds less, the duel is refused.
pub proof fn lemma_duel_funds_cover_stake(aposta: i64, challenger_coins: i64, target_coins: i64)
    ensures
        duel_funds_check(aposta, challenger_coins, target_coins) is Ok <==> (challenger_coins
            >= aposta && target_coins >= aposta),
{
}

} // verus!
