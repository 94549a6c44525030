use vstd::prelude::*;
use crate::text::{lowercase, lowercase_of, parse_i64, parse_i64_of, str_eq};

verus! {

/// Why a requested stake is refused.
#[derive(PartialEq, Eq, Structural, Clone, Copy, Debug)]
pub enum BetError {
    /// The stake is neither a whole number nor `allwin`.
    InvalidNumber,
    /// The stake is zero or negative.
    NotPositive,
    /// The player has fewer coins than the stake.
    InsufficientCoins,
}

/// The stake a player asked for: every coin they have for `allwin` (in any
/// letter case), otherwise the number written, if it is one.
pub open spec fn requested_stake(aposta: Seq<char>, coins: i64) -> Option<i64> {
    stake_requested_from(lowercase_of(aposta), parse_i64_of(aposta), coins)
}

/// The stake asked for, given the typed text lowercased and the number the
/// typed text reads as, if any: every coin for `allwin`, otherwise that number.
pub open spec fn stake_requested_from(lowered: Seq<char>, parsed: Option<i64>, coins: i64) -> Option<
    i64,
> {
    if lowered == "allwin"@ {
        Some(coins)
    } else {
        parsed
    }
}

/// The stake asked for, from the typed text already lowercased (`lowered`)
/// and the number it reads as (`parsed`).
pub fn requested_stake_from(lowered: &str, parsed: Option<i64>, coins: i64) -> (requested: Option<
    i64,
>)
    ensures
        requested == stake_requested_from(lowered@, parsed, coins),
{
    if str_eq(lowered, "allwin") {
        Some(coins)
    } else {
        parsed
    }
}

/// The checks a stake goes through, in order: it must be a number, be
/// positive, and be covered by the player's coins.
pub open spec fn stake_check(requested: Option<i64>, coins: i64) -> Result<i64, BetError> {
    match requested {
        None => Err(BetError::InvalidNumber),
        Some(v) => if v <= 0 {
            Err(BetError::NotPositive)
        } else if coins < v {
            Err(BetError::InsufficientCoins)
        } else {
            Ok(v)
        },
    }
}

/// Checks a requested stake against the player's coins.
pub fn validate_stake(requested: Option<i64>, coins: i64) -> (checked: Result<i64, BetError>)
    ensures
        checked == stake_check(requested, coins),
{
    match requested {
        None => Err(BetError::InvalidNumber),
        Some(v) => {
            if v <= 0 {
                Err(BetError::NotPositive)
            } else if coins < v {
                Err(BetError::InsufficientCoins)
            } else {
                Ok(v)
            }
        },
    }
}

/// Reads the stake a player typed (`allwin` or a number) and checks it
/// against their coins.
pub fn resolve_stake(aposta: &str, coins: i64) -> (checked: Result<i64, BetError>)
    ensures
        checked == stake_check(requested_stake(aposta@, coins), coins),
{
    let lowered = lowercase(aposta);
    let requested = requested_stake_from(lowered.as_str(), parse_i64(aposta), coins);
    validate_stake(requested, coins)
}

/// An accepted stake is positive and covered by the player's coins, so no
/// game that takes it can leave the player below zero.
pub proof fn lemma_accepted_stake_is_covered(requested: Option<i64>, coins: i64)
    ensures
        stake_check(requested, coins) matches Ok(v) ==> 0 < v <= coins && requested == Some(v),
        stake_check(requested, coins) is Ok ==> coins > 0,
{
}

} // verus!
