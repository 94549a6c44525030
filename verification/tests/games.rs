use cassino::bets::{requested_stake_from, resolve_stake, validate_stake, BetError};
use cassino::cards::{card_rank, card_text, compare_cards, is_winning_guess, Card, Suit};
use cassino::duel::{check_duel_funds, check_duel_request, decide_duel, settle_duel, DuelRefusal};
use cassino::deck::{deck_from_orders, draw_card, shuffled_deck};
use cassino::highlow::{highlow_step, start_highlow, HighLowAction, HighLowSession};
use cassino::niquel::{
    blank_slots, calculate_multiplier_percent, check_niquel_bet, is_rare_quartet,
    rare_quartet_bonus, render_slots_table, reveal_column, slot_symbol, NiquelBetError,
};
use cassino::parity::{
    check_parity_bet, parity_choice_from, parity_wins, play_parity_round, ParityBetError, ParityChoice,
};
use std::cmp::Ordering;

#[test]
fn stake_accepts_allwin_in_any_case() {
    assert_eq!(resolve_stake("allwin", 250), Ok(250));
    assert_eq!(resolve_stake("ALLWIN", 250), Ok(250));
    assert_eq!(resolve_stake("AllWin", 250), Ok(250));
    assert_eq!(resolve_stake("allwin", 0), Err(BetError::NotPositive));
}

#[test]
fn stake_reads_numbers() {
    assert_eq!(resolve_stake("42", 100), Ok(42));
    assert_eq!(resolve_stake("+7", 100), Ok(7));
    assert_eq!(resolve_stake("100", 100), Ok(100));
}

#[test]
fn stake_refusals_come_in_order() {
    assert_eq!(resolve_stake("abc", 100), Err(BetError::InvalidNumber));
    assert_eq!(resolve_stake(" 7", 100), Err(BetError::InvalidNumber));
    assert_eq!(resolve_stake("", 100), Err(BetError::InvalidNumber));
    assert_eq!(resolve_stake("99999999999999999999", 100), Err(BetError::InvalidNumber));
    assert_eq!(resolve_stake("0", 100), Err(BetError::NotPositive));
    assert_eq!(resolve_stake("-5", 100), Err(BetError::NotPositive));
    assert_eq!(resolve_stake("101", 100), Err(BetError::InsufficientCoins));
    assert_eq!(validate_stake(None, 100), Err(BetError::InvalidNumber));
    assert_eq!(validate_stake(Some(3), 2), Err(BetError::InsufficientCoins));
}

#[test]
fn parity_bet_checks() {
    assert_eq!(check_parity_bet("par", None, 100), Err(ParityBetError::MissingStake));
    assert_eq!(check_parity_bet("PAR", Some("10"), 100), Ok((ParityChoice::Even, 10)));
    assert_eq!(check_parity_bet("Impar", Some("allwin"), 100), Ok((ParityChoice::Odd, 100)));
    assert_eq!(
        check_parity_bet("par", Some("x"), 100),
        Err(ParityBetError::Stake(BetError::InvalidNumber))
    );
    assert_eq!(
        check_parity_bet("talvez", Some("500"), 100),
        Err(ParityBetError::Stake(BetError::InsufficientCoins))
    );
    assert_eq!(check_parity_bet("talvez", Some("5"), 100), Err(ParityBetError::InvalidChoice));
}

#[test]
fn parity_outcomes() {
    assert!(parity_wins(ParityChoice::Even, 0));
    assert!(parity_wins(ParityChoice::Even, 42));
    assert!(!parity_wins(ParityChoice::Even, 7));
    assert!(parity_wins(ParityChoice::Odd, 99));
    assert!(!parity_wins(ParityChoice::Odd, 98));
    let evens = (0u32..100).filter(|n| parity_wins(ParityChoice::Even, *n)).count();
    let odds = (0u32..100).filter(|n| parity_wins(ParityChoice::Odd, *n)).count();
    assert_eq!((evens, odds), (50, 50));
}

#[test]
fn parity_round_pays_double_on_a_win() {
    for _ in 0..200 {
        let round = play_parity_round(ParityChoice::Odd, 25);
        assert!(round.numero < 100);
        assert_eq!(round.ganhou, round.numero % 2 == 1);
        assert_eq!(round.premio, if round.ganhou { 50 } else { 0 });
    }
}

#[test]
fn card_labels_and_symbols() {
    assert_eq!(card_rank(1), "A");
    assert_eq!(card_rank(7), "7");
    assert_eq!(card_rank(10), "10");
    assert_eq!(card_rank(11), "J");
    assert_eq!(card_rank(12), "Q");
    assert_eq!(card_rank(13), "K");
    assert_eq!(card_rank(0), "?");
    assert_eq!(Suit::all(), [Suit::Hearts, Suit::Diamonds, Suit::Clubs, Suit::Spades]);
    assert_eq!(Suit::Hearts.symbol(), "♥");
    assert_eq!(Suit::Diamonds.symbol(), "♦");
    assert_eq!(Suit::Clubs.symbol(), "♣");
    assert_eq!(Suit::Spades.symbol(), "♠");
}

#[test]
fn card_text_draws_a_box() {
    assert_eq!(
        card_text(Card { rank: 10, suit: Suit::Hearts }),
        "```\n┌───────┐\n│  10 ♥ │\n└───────┘\n```"
    );
    assert_eq!(
        card_text(Card { rank: 1, suit: Suit::Spades }),
        "```\n┌───────┐\n│  A  ♠ │\n└───────┘\n```"
    );
}

#[test]
fn cards_compare_by_rank_then_suit() {
    let low = Card { rank: 3, suit: Suit::Clubs };
    let high = Card { rank: 9, suit: Suit::Diamonds };
    let tie = Card { rank: 3, suit: Suit::Hearts };
    assert_eq!(compare_cards(low, high), Ordering::Less);
    assert_eq!(compare_cards(high, low), Ordering::Greater);
    assert_eq!(compare_cards(low, low), Ordering::Equal);
    // equal ranks: diamonds < spades < hearts < clubs
    assert_eq!(compare_cards(low, tie), Ordering::Greater);
    assert_eq!(
        compare_cards(Card { rank: 5, suit: Suit::Clubs }, Card { rank: 5, suit: Suit::Diamonds }),
        Ordering::Greater
    );
    assert_eq!(
        compare_cards(Card { rank: 5, suit: Suit::Spades }, Card { rank: 5, suit: Suit::Hearts }),
        Ordering::Less
    );
    assert_eq!(
        compare_cards(Card { rank: 1, suit: Suit::Clubs }, Card { rank: 13, suit: Suit::Diamonds }),
        Ordering::Less
    );
    assert!(is_winning_guess("highlow_high", low, high));
    assert!(!is_winning_guess("highlow_low", low, high));
    assert!(is_winning_guess("highlow_low", high, low));
    assert!(!is_winning_guess("highlow_high", low, tie));
    assert!(is_winning_guess("highlow_low", low, tie));
    assert!(is_winning_guess("highlow_high", tie, low));
}

#[test]
fn deck_is_laid_out_from_the_orders() {
    let suits = vec![Suit::Spades, Suit::Hearts, Suit::Clubs, Suit::Diamonds];
    let ranks: Vec<Vec<i64>> = vec![
        (1..=13).collect(),
        (1..=13).rev().collect(),
        vec![7, 1, 2, 3, 4, 5, 6, 8, 9, 10, 11, 12, 13],
        (1..=13).collect(),
    ];
    let deck = deck_from_orders(&suits, &ranks);
    assert_eq!(deck.len(), 52);
    for s in 0..4 {
        for r in 0..13 {
            assert_eq!(deck[13 * s + r], Card { rank: ranks[s][r], suit: suits[s] });
        }
    }
}

#[test]
fn shuffled_deck_holds_every_card_once() {
    let deck = shuffled_deck();
    assert_eq!(deck.len(), 52);
    for suit in Suit::all() {
        for rank in 1..=13 {
            assert_eq!(deck.iter().filter(|c| **c == Card { rank, suit }).count(), 1);
        }
    }
    for block in deck.chunks(13) {
        assert!(block.iter().all(|c| c.suit == block[0].suit));
    }
}

#[test]
fn drawing_takes_the_last_card() {
    let mut deck = vec![Card { rank: 2, suit: Suit::Clubs }, Card { rank: 5, suit: Suit::Hearts }];
    assert_eq!(draw_card(&mut deck), Some(Card { rank: 5, suit: Suit::Hearts }));
    assert_eq!(draw_card(&mut deck), Some(Card { rank: 2, suit: Suit::Clubs }));
    assert_eq!(draw_card(&mut deck), None);
}

#[test]
fn session_starts_with_a_card_on_the_table() {
    let session = start_highlow(30, 4);
    assert_eq!(session.deck.len(), 51);
    assert!(!session.deck.contains(&session.current_card));
    assert_eq!((session.aposta, session.streak), (30, 4));
    assert!(session.first_round_pending);
}

fn session(deck: Vec<Card>, current: Card, streak: i64) -> HighLowSession {
    HighLowSession { deck, current_card: current, aposta: 10, streak, first_round_pending: true }
}

#[test]
fn highlow_rounds() {
    let seven = Card { rank: 7, suit: Suit::Hearts };
    let nine = Card { rank: 9, suit: Suit::Clubs };
    let two = Card { rank: 2, suit: Suit::Spades };

    let mut s = session(vec![two, nine], seven, 1);
    assert_eq!(highlow_step(&mut s, Some("highlow_high")), HighLowAction::Won { previous: seven, revealed: nine });
    assert_eq!(s.current_card, nine);
    assert_eq!(s.streak, 2);
    assert_eq!(s.deck, vec![two]);
    assert!(!s.first_round_pending);

    assert_eq!(highlow_step(&mut s, Some("highlow_high")), HighLowAction::Lost { revealed: two });
    assert_eq!(s.current_card, nine);
    assert_eq!(s.streak, 2);
    assert!(s.deck.is_empty());

    assert_eq!(highlow_step(&mut s, Some("highlow_low")), HighLowAction::DeckExhausted);
}

#[test]
fn highlow_other_events() {
    let seven = Card { rank: 7, suit: Suit::Hearts };
    let two = Card { rank: 2, suit: Suit::Spades };
    let mut s = session(vec![two], seven, 3);
    assert_eq!(highlow_step(&mut s, None), HighLowAction::TimedOut);
    assert_eq!(highlow_step(&mut s, Some("something_else")), HighLowAction::Ignored);
    assert_eq!(highlow_step(&mut s, Some("highlow_cashout")), HighLowAction::CashedOut);
    assert_eq!(s.deck.len(), 1);
    assert!(s.first_round_pending);
    assert_eq!(highlow_step(&mut s, Some("highlow_low")), HighLowAction::Won { previous: seven, revealed: two });
    assert_eq!(s.streak, 4);
}

fn line(a: usize, b: usize, c: usize) -> Vec<String> {
    vec![slot_symbol(a).to_string(), slot_symbol(b).to_string(), slot_symbol(c).to_string()]
}

#[test]
fn slot_symbols() {
    let all: Vec<&str> = (0..7).map(slot_symbol).collect();
    assert_eq!(all, vec!["💎", "💰", "🤑", "🐒", "😒", "🐈‍⬛", "👎"]);
}

#[test]
fn line_multipliers() {
    assert_eq!(calculate_multiplier_percent(&line(0, 0, 0)), 800);
    assert_eq!(calculate_multiplier_percent(&line(1, 1, 1)), 400);
    assert_eq!(calculate_multiplier_percent(&line(2, 2, 2)), 200);
    assert_eq!(calculate_multiplier_percent(&line(0, 1, 2)), 75);
    assert_eq!(calculate_multiplier_percent(&line(0, 0, 1)), 75);
    assert_eq!(calculate_multiplier_percent(&line(0, 3, 2)), 75);
    assert_eq!(calculate_multiplier_percent(&line(0, 1, 3)), 75);
    assert_eq!(calculate_multiplier_percent(&line(4, 1, 5)), 20);
    assert_eq!(calculate_multiplier_percent(&line(3, 4, 6)), 0);
    assert_eq!(calculate_multiplier_percent(&vec!["?".to_string(); 3]), 0);
}

#[test]
fn rare_quartet() {
    let four = vec![line(0, 3, 4); 4];
    assert!(is_rare_quartet(&four));
    assert_eq!(rare_quartet_bonus(&four, 40), Some(("Quarteto dos Amigos".to_string(), 80)));
    let dull = vec![line(3, 4, 5); 4];
    assert_eq!(rare_quartet_bonus(&dull, 40), None);
    let three = vec![line(0, 0, 0); 3];
    assert_eq!(rare_quartet_bonus(&three, 40), None);
    let mut mixed = vec![line(0, 3, 4); 4];
    mixed[2] = line(0, 3, 5);
    assert_eq!(rare_quartet_bonus(&mixed, 40), None);
}

#[test]
fn slots_table_text() {
    let slots = vec![line(0, 1, 2), line(3, 4, 6)];
    assert_eq!(
        render_slots_table(&slots),
        "```\n┌───────────────┐\n│  💎  💰  🤑  │\n│  🐒  😒  👎  │\n└───────────────┘\n```"
    );
    assert_eq!(
        render_slots_table(&blank_slots(1)),
        "```\n┌───────────────┐\n│  ?  ?  ?  │\n└───────────────┘\n```"
    );
}

#[test]
fn revealing_a_column_fills_only_that_column() {
    let mut slots = blank_slots(5);
    reveal_column(&mut slots, 1);
    let symbols: Vec<&str> = (0..7).map(slot_symbol).collect();
    for row in &slots {
        assert_eq!(row.len(), 3);
        assert_eq!(row[0], "?");
        assert!(symbols.contains(&row[1].as_str()));
        assert_eq!(row[2], "?");
    }
}

#[test]
fn niquel_bet_checks() {
    assert_eq!(check_niquel_bet(0, 10, 1000), Err(NiquelBetError::InvalidLines));
    assert_eq!(check_niquel_bet(11, 10, 1000), Err(NiquelBetError::InvalidLines));
    assert_eq!(check_niquel_bet(3, 0, 1000), Err(NiquelBetError::InvalidStake));
    assert_eq!(check_niquel_bet(3, 10, 29), Err(NiquelBetError::InsufficientCoins));
    assert_eq!(check_niquel_bet(3, 10, 30), Ok(30));
    assert_eq!(check_niquel_bet(10, 1, 10), Ok(10));
}

#[test]
fn duel_checks() {
    assert_eq!(check_duel_request(0, false, false), Err(DuelRefusal::InvalidStake));
    assert_eq!(check_duel_request(10, true, true), Err(DuelRefusal::SelfDuel));
    assert_eq!(check_duel_request(10, false, true), Err(DuelRefusal::TargetIsBot));
    assert_eq!(check_duel_request(10, false, false), Ok(()));
    assert_eq!(check_duel_funds(10, 9, 0), Err(DuelRefusal::ChallengerLacksCoins));
    assert_eq!(check_duel_funds(10, 10, 9), Err(DuelRefusal::TargetLacksCoins));
    assert_eq!(check_duel_funds(10, 10, 10), Ok(()));
}

#[test]
fn duel_moves_the_stake_to_the_winner() {
    let s = settle_duel(25, true);
    assert!(s.winner_is_challenger);
    assert_eq!((s.stake, s.prize), (25, 50));
    let challenger = 100 - s.stake + if s.winner_is_challenger { s.prize } else { 0 };
    let target = 100 - s.stake + if s.winner_is_challenger { 0 } else { s.prize };
    assert_eq!((challenger, target), (125, 75));
    let d = decide_duel(7);
    assert_eq!((d.stake, d.prize), (7, 14));
}

#[test]
fn stake_from_lowered_text() {
    assert_eq!(requested_stake_from("allwin", None, 70), Some(70));
    assert_eq!(requested_stake_from("allwin", Some(3), 70), Some(70));
    assert_eq!(requested_stake_from("12", Some(12), 70), Some(12));
    assert_eq!(requested_stake_from("ALLWIN", None, 70), None);
}

#[test]
fn parity_choice_from_lowered_text() {
    assert_eq!(parity_choice_from("par"), Some(ParityChoice::Even));
    assert_eq!(parity_choice_from("impar"), Some(ParityChoice::Odd));
    assert_eq!(parity_choice_from("PAR"), None);
    assert_eq!(parity_choice_from("ímpar"), None);
}

#[test]
fn session_deck_keeps_suit_blocks() {
    let session = start_highlow(5, 0);
    let mut full = session.deck.clone();
    full.push(session.current_card);
    assert_eq!(full.len(), 52);
    for block in full.chunks(13) {
        assert!(block.iter().all(|c| c.suit == block[0].suit));
    }
}
