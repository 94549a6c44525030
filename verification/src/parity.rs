use vstd::prelude::*;
use crate::bets::{requested_stake, resolve_stake, stake_check, BetError};
use crate::text::{lowercase, lowercase_of, option_text_view, str_eq};

verus! {

/// Numbers are drawn from `0..PARITY_RANGE`.
pub const PARITY_RANGE: u32 = 100;

/// The side a player bets on.
#[derive(PartialEq, Eq, Structural, Clone, Copy, Debug)]
pub enum ParityChoice {
    Even,
    Odd,
}

/// Why a parity bet is refused.
#[derive(PartialEq, Eq, Structural, Clone, Copy, Debug)]
pub enum ParityBetError {
    /// No stake was given.
    MissingStake,
    /// The stake failed its checks.
    Stake(BetError),
    /// The choice is neither `par` nor `impar`.
    InvalidChoice,
}

/// The side named by `escolha` once lowercased: `par` or `impar`.
pub open spec fn parity_choice_of(escolha: Seq<char>) -> Option<ParityChoice> {
    parity_choice_named(lowercase_of(escolha))
}

/// The side named by an already lowercased choice: `par` or `impar`.
pub open spec fn parity_choice_named(lowered: Seq<char>) -> Option<ParityChoice> {
    if lowered == "par"@ {
        Some(ParityChoice::Even)
    } else if lowered == "impar"@ {
        Some(ParityChoice::Odd)
    } else {
        None
    }
}

/// The side named by a choice already lowercased.
pub fn parity_choice_from(lowered: &str) -> (choice: Option<ParityChoice>)
    ensures
        choice == parity_choice_named(lowered@),
{
    if str_eq(lowered, "par") {
        Some(ParityChoice::Even)
    } else if str_eq(lowered, "impar") {
        Some(ParityChoice::Odd)
    } else {
        None
    }
}

/// The checks of a parity bet, in order: a stake must be given, it must pass
/// the stake checks, and the choice must be `par` or `impar`.
pub open spec fn parity_bet_check(escolha: Seq<char>, aposta: Option<Seq<char>>, coins: i64) -> Result<
    (ParityChoice, i64),
    ParityBetError,
> {
    match aposta {
        None => Err(ParityBetError::MissingStake),
        Some(a) => match stake_check(requested_stake(a, coins), coins) {
            Err(e) => Err(ParityBetError::Stake(e)),
            Ok(stake) => match parity_choice_of(escolha) {
                None => Err(ParityBetError::InvalidChoice),
                Some(choice) => Ok((choice, stake)),
            },
        },
    }
}

/// Checks a parity bet: the choice `escolha` and the stake `aposta` typed by
/// a player holding `coins`.
pub fn check_parity_bet(escolha: &str, aposta: Option<&str>, coins: i64) -> (checked: Result<
    (ParityChoice, i64),
    ParityBetError,
>)
    ensures
        checked == parity_bet_check(escolha@, option_text_view(aposta), coins),
{
    let lowered = lowercase(escolha);
    match aposta {
        None => Err(ParityBetError::MissingStake),
        Some(a) => match resolve_stake(a, coins) {
            Err(e) => Err(ParityBetError::Stake(e)),
            Ok(stake) => match parity_choice_from(lowered.as_str()) {
                Some(choice) => Ok((choice, stake)),
                None => Err(ParityBetError::InvalidChoice),
            },
        },
    }
}

/// Whether `numero` falls on the side `choice`.
pub open spec fn parity_wins_spec(choice: ParityChoice, numero: u32) -> bool {
    match choice {
        ParityChoice::Even => numero % 2 == 0,
        ParityChoice::Odd => numero % 2 != 0,
    }
}

/// Whether the drawn `numero` falls on the side the player chose.
pub fn parity_wins(choice: ParityChoice, numero: u32) -> (won: bool)
    ensures
        won == parity_wins_spec(choice, numero),
{
    match choice {
        ParityChoice::Even => numero % 2 == 0,
        ParityChoice::Odd => numero % 2 != 0,
    }
}

/// `rand::random_range(0..range)`: a number drawn from `0..range`.  Only the
/// range is claimed: the draw is random.
#[verifier::external_body]
fn generate_random_number(range: u32) -> (n: u32)
    requires
        range > 0,
    ensures
        n < range,
{
    rand::random_range(0..range)
}

/// One round of par ou ímpar.
pub struct ParityRound {
    /// The number drawn.
    pub numero: u32,
    /// Whether it fell on the chosen side.
    pub ganhou: bool,
    /// Coins paid back: twice the stake on a win, nothing on a loss.
    pub premio: i64,
}

/// Plays one round with a stake already taken from the player: draws a
/// number below 100; a win pays back twice the stake.
pub fn play_parity_round(choice: ParityChoice, aposta: i64) -> (round: ParityRound)
    requires
        i64::MIN <= 2 * aposta <= i64::MAX,
    ensures
        round.numero < PARITY_RANGE,
        round.ganhou == parity_wins_spec(choice, round.numero),
        round.premio == if round.ganhou {
            2 * aposta
        } else {
            0
        },
{
    let numero = generate_random_number(PARITY_RANGE);
    let ganhou = parity_wins(choice, numero);
    let premio = if ganhou {
        aposta * 2
    } else {
        0
    };
    ParityRound { numero, ganhou, premio }
}

/// How many of the numbers `0..k` fall on the side `choice`.
pub open spec fn winning_numbers_below(choice: ParityChoice, k: nat) -> nat
    decreases k,
{
    if k == 0 {
        0
    } else {
        winning_numbers_below(choice, (k - 1) as nat) + if parity_wins_spec(
            choice,
            (k - 1) as u32,
        ) {
            1nat
        } else {
            0nat
        }
    }
}

proof fn lemma_winning_numbers_pairs(choice: ParityChoice, m: nat)
    requires
        2 * m <= PARITY_RANGE,
    ensures
        winning_numbers_below(choice, 2 * m) == m,
    decreases m,
{
    if m > 0 {
        lemma_winning_numbers_pairs(choice, (m - 1) as nat);
        let a = (2 * m - 2) as nat;
        let b = (2 * m - 1) as nat;
        assert(winning_numbers_below(choice, b) == winning_numbers_below(choice, a) + if parity_wins_spec(choice, a as u32) { 1nat } else { 0nat });
        assert(winning_numbers_below(choice, 2 * m) == winning_numbers_below(choice, b) + if parity_wins_spec(choice, b as u32) { 1nat } else { 0nat });
        assert((a as u32) % 2 == 0);
        assert((b as u32) % 2 == 1);
    }
}

/// Whichever side a player picks, exactly half of the numbers that can be
/// drawn win: 50 of the 100.
pub proof fn lemma_parity_is_even_odds(choice: ParityChoice)
    ensures
        winning_numbers_below(choice, PARITY_RANGE as nat) == 50,
{
    lemma_winning_numbers_pairs(choice, 50);
}

} // verus!
