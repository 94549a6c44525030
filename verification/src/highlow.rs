use vstd::prelude::*;
use crate::cards::{card_above, high_button_id, is_winning_guess, Card};
use crate::deck::{draw_card, in_suit_blocks, is_deck_card, is_full_deck, shuffled_deck};
use crate::text::{option_text_view, str_eq};

verus! {

/// Custom id of the button that guesses a lower card.
pub open spec fn low_button_id() -> Seq<char> {
    "highlow_low"@
}

/// Custom id of the button that ends the session and cashes out.
pub open spec fn cashout_button_id() -> Seq<char> {
    "highlow_cashout"@
}

/// A running HighLow session: the cards left to draw (from the end), the
/// card on the table, the stake per round, the winning streak, and whether
/// the first round is still to be played.
pub struct HighLowSession {
    pub deck: Vec<Card>,
    pub current_card: Card,
    pub aposta: i64,
    pub streak: i64,
    pub first_round_pending: bool,
}

/// The mathematical state of a session.
pub struct HighLowState {
    pub deck: Seq<Card>,
    pub current_card: Card,
    pub aposta: i64,
    pub streak: i64,
    pub first_round_pending: bool,
}

impl View for HighLowSession {
    type V = HighLowState;

    open spec fn view(&self) -> HighLowState {
        HighLowState {
            deck: self.deck@,
            current_card: self.current_card,
            aposta: self.aposta,
            streak: self.streak,
            first_round_pending: self.first_round_pending,
        }
    }
}

/// What the application does after a step of the session.
#[derive(PartialEq, Eq, Structural, Clone, Copy, Debug)]
pub enum HighLowAction {
    /// No button was pressed in time: the session ends with nothing paid.
    TimedOut,
    /// The player cashed out: the streak is settled and the session ends.
    CashedOut,
    /// A button that is not part of the game: nothing happens.
    Ignored,
    /// A guess found no card left: the streak is settled and the session ends.
    DeckExhausted,
    /// The guess was right: `revealed` is the new card on the table and the
    /// streak grew by one.
    Won { previous: Card, revealed: Card },
    /// The guess was wrong: the session ends.
    Lost { revealed: Card },
}

/// Whether the action ends the session.
pub open spec fn ends_session(action: HighLowAction) -> bool {
    !(action is Ignored || action is Won)
}

/// Whether pressing `id` in state `s` wins a round.
pub open spec fn guess_wins(s: HighLowState, id: Seq<char>) -> bool {
    &&& (id == high_button_id() || id == low_button_id())
    &&& s.deck.len() > 0
    &&& if id == high_button_id() {
        card_above(s.deck.last(), s.current_card)
    } else {
        card_above(s.current_card, s.deck.last())
    }
}

/// One step of a session: `pressed` is the custom id of the button pressed,
/// or `None` when the wait timed out.
pub open spec fn highlow_transition(s: HighLowState, pressed: Option<Seq<char>>) -> (
    HighLowState,
    HighLowAction,
) {
    match pressed {
        None => (s, HighLowAction::TimedOut),
        Some(id) => if id == cashout_button_id() {
            (s, HighLowAction::CashedOut)
        } else if id != high_button_id() && id != low_button_id() {
            (s, HighLowAction::Ignored)
        } else {
            let played = HighLowState { first_round_pending: false, ..s };
            if s.deck.len() == 0 {
                (played, HighLowAction::DeckExhausted)
            } else if guess_wins(s, id) {
                (
                    HighLowState {
                        deck: s.deck.drop_last(),
                        current_card: s.deck.last(),
                        streak: (s.streak + 1) as i64,
                        ..played
                    },
                    HighLowAction::Won { previous: s.current_card, revealed: s.deck.last() },
                )
            } else {
                (
                    HighLowState { deck: s.deck.drop_last(), ..played },
                    HighLowAction::Lost { revealed: s.deck.last() },
                )
            }
        },
    }
}

/// The session's cards are consistent: no card twice in the deck, the card
/// on the table not in the deck, every card of a valid rank.
pub open spec fn session_wf(s: HighLowState) -> bool {
    &&& s.deck.no_duplicates()
    &&& !s.deck.contains(s.current_card)
    &&& is_deck_card(s.current_card)
    &&& forall|i: int| 0 <= i < s.deck.len() ==> is_deck_card(#[trigger] s.deck[i])
}

/// Starts a session with stake `aposta` and the player's stored `streak`:
/// shuffles a full deck and puts its last card on the table; with that card
/// put back at its end the deck is the shuffled deck, every card once and
/// each suit one block of 13 cards.
pub fn start_highlow(aposta: i64, streak: i64) -> (session: HighLowSession)
    ensures
        session_wf(session@),
        session@.deck.len() == 51,
        session@.deck.push(session@.current_card).to_set() =~= Set::new(|c: Card| is_deck_card(c)),
        in_suit_blocks(session@.deck.push(session@.current_card)),
        session.aposta == aposta,
        session.streak == streak,
        session.first_round_pending,
{
    let mut deck = shuffled_deck();
    let ghost full = deck@;
    let current_card = draw_card(&mut deck).unwrap();
    proof {
        assert(full =~= deck@.push(current_card));
        assert(deck@.no_duplicates());
        assert(!deck@.contains(current_card)) by {
            if deck@.contains(current_card) {
                let i = choose|i: int| 0 <= i < deck@.len() && deck@[i] == current_card;
                assert(full[i] == full[51]);
            }
        }
        assert(is_deck_card(full[51]));
        assert forall|c: Card| #[trigger] full.to_set().contains(c) <==> is_deck_card(c) by {
            if full.to_set().contains(c) {
                assert(full.contains(c));
                let i = choose|i: int| 0 <= i < full.len() && full[i] == c;
                assert(is_deck_card(full[i]));
            }
            if is_deck_card(c) {
                assert(full.contains(c));
            }
        }
    }
    HighLowSession { deck, current_card, aposta, streak, first_round_pending: true }
}

/// Plays one step of a session: `pressed` is the custom id of the button
/// pressed, or `None` when the wait timed out.  The session changes as
/// `highlow_transition` says and the returned action tells the application
/// what to pay, record and show.
pub fn highlow_step(session: &mut HighLowSession, pressed: Option<&str>) -> (action: HighLowAction)
    requires
        match option_text_view(pressed) {
            Some(id) => guess_wins(old(session)@, id) ==> old(session).streak < i64::MAX,
            None => true,
        },
    ensures
        (final(session)@, action) == highlow_transition(old(session)@, option_text_view(pressed)),
        session_wf(old(session)@) ==> session_wf(final(session)@),
{
    let id = match pressed {
        None => {
            return HighLowAction::TimedOut;
        },
        Some(id) => id,
    };
    if str_eq(id, "highlow_cashout") {
        return HighLowAction::CashedOut;
    }
    let is_high = str_eq(id, "highlow_high");
    let is_low = str_eq(id, "highlow_low");
    if !is_high && !is_low {
        return HighLowAction::Ignored;
    }
    if session.first_round_pending {
        session.first_round_pending = false;
    }
    let ghost before = session.deck@;
    let next_card = match draw_card(&mut session.deck) {
        None => {
            return HighLowAction::DeckExhausted;
        },
        Some(card) => card,
    };
    if is_winning_guess(id, session.current_card, next_card) {
        let previous = session.current_card;
        session.current_card = next_card;
        session.streak = session.streak + 1;
        proof {
            if before.no_duplicates() {
                assert(!session.deck@.contains(next_card)) by {
                    if session.deck@.contains(next_card) {
                        let i = choose|i: int| 0 <= i < session.deck@.len() && session.deck@[i] == next_card;
                        assert(before[i] == before[before.len() - 1]);
                    }
                }
            }
            if forall|i: int| 0 <= i < before.len() ==> is_deck_card(#[trigger] before[i]) {
                assert(is_deck_card(before[before.len() - 1]));
            }
        }
        HighLowAction::Won { previous, revealed: next_card }
    } else {
        proof {
            if !before.contains(session.current_card) {
                assert(!session.deck@.contains(session.current_card)) by {
                    if session.deck@.contains(session.current_card) {
                        let i = choose|i: int| 0 <= i < session.deck@.len() && session.deck@[i] == session.current_card;
                        assert(before[i] == session.current_card);
                    }
                }
            }
        }
        HighLowAction::Lost { revealed: next_card }
    }
}

/// Every round that reveals a card takes exactly that card off the end of
/// the deck, and a revealed card is never the card on the table nor one
/// still left to draw; any other step leaves the deck as it was.
pub proof fn lemma_rounds_reveal_fresh_cards(s: HighLowState, pressed: Option<Seq<char>>)
    requires
        session_wf(s),
    ensures
        ({
            let (t, action) = highlow_transition(s, pressed);
            match action {
                HighLowAction::Won { previous, revealed } => {
                    &&& previous == s.current_card
                    &&& revealed == s.deck.last()
                    &&& t.deck == s.deck.drop_last()
                    &&& revealed != previous
                    &&& !t.deck.contains(revealed)
                },
                HighLowAction::Lost { revealed } => {
                    &&& revealed == s.deck.last()
                    &&& t.deck == s.deck.drop_last()
                    &&& revealed != s.current_card
                },
                _ => t.deck == s.deck,
            }
        }),
{
    let (t, action) = highlow_transition(s, pressed);
    if s.deck.len() > 0 {
        assert(s.deck.contains(s.deck.last()));
        assert(s.deck.last() != s.current_card);
        if t.deck.contains(s.deck.last()) && t.deck == s.deck.drop_last() {
            let i = choose|i: int| 0 <= i < t.deck.len() && t.deck[i] == s.deck.last();
            assert(s.deck[i] == s.deck[s.deck.len() - 1]);
        }
    }
}

/// The streak grows by exactly one on a won round and stays as it is on any
/// other step, and a session ends exactly on a timeout, a cash-out, an
/// empty deck or a lost round.
pub proof fn lemma_streak_counts_won_rounds(s: HighLowState, pressed: Option<Seq<char>>)
    requires
        s.streak < i64::MAX,
    ensures
        ({
            let (t, action) = highlow_transition(s, pressed);
            &&& action is Won ==> t.streak == s.streak + 1
            &&& !(action is Won) ==> t.streak == s.streak
            &&& t.aposta == s.aposta
            &&& ends_session(action) <==> (action is TimedOut || action is CashedOut
                || action is DeckExhausted || action is Lost)
        }),
{
}

} // verus!
