use vstd::prelude::*;
use vstd::string::*;
use std::cmp::Ordering;
use crate::text::str_eq;

verus! {

/// A card suit.
#[derive(PartialEq, Eq, Structural, Clone, Copy, Debug)]
pub enum Suit {
    Hearts,
    Diamonds,
    Clubs,
    Spades,
}

/// A playing card: rank 1 (ace) to 13 (king) and a suit.
#[derive(PartialEq, Eq, Structural, Clone, Copy, Debug)]
pub struct Card {
    pub rank: i64,
    pub suit: Suit,
}

/// Custom id of the button that guesses a higher card.
pub open spec fn high_button_id() -> Seq<char> {
    "highlow_high"@
}

/// The symbol of a suit.
pub open spec fn suit_symbol_of(suit: Suit) -> Seq<char> {
    match suit {
        Suit::Hearts => seq!['\u{2665}'],
        Suit::Diamonds => seq!['\u{2666}'],
        Suit::Clubs => seq!['\u{2663}'],
        Suit::Spades => seq!['\u{2660}'],
    }
}

impl Suit {
    /// The four suits in their fixed order: hearts, diamonds, clubs, spades.
    pub fn all() -> (suits: [Suit; 4])
        ensures
            suits@ == seq![Suit::Hearts, Suit::Diamonds, Suit::Clubs, Suit::Spades],
    {
        let suits = [Suit::Hearts, Suit::Diamonds, Suit::Clubs, Suit::Spades];
        assert(suits@ =~= seq![Suit::Hearts, Suit::Diamonds, Suit::Clubs, Suit::Spades]);
        suits
    }

    /// The symbol shown for the suit.
    pub fn symbol(self) -> (symbol: &'static str)
        ensures
            symbol@ == suit_symbol_of(self),
    {
        match self {
            Suit::Hearts => {
                proof {
                    reveal_strlit("\u{2665}");
                }
                "\u{2665}"
            },
            Suit::Diamonds => {
                proof {
                    reveal_strlit("\u{2666}");
                }
                "\u{2666}"
            },
            Suit::Clubs => {
                proof {
                    reveal_strlit("\u{2663}");
                }
                "\u{2663}"
            },
            Suit::Spades => {
                proof {
                    reveal_strlit("\u{2660}");
                }
                "\u{2660}"
            },
        }
    }
}

/// The label of a rank: A, 2 to 10, J, Q, K, and `?` for anything else.
pub open spec fn rank_label(value: i64) -> Seq<char> {
    if value == 1 {
        seq!['A']
    } else if value == 11 {
        seq!['J']
    } else if value == 12 {
        seq!['Q']
    } else if value == 13 {
        seq!['K']
    } else if value == 10 {
        seq!['1', '0']
    } else if 2 <= value <= 9 {
        seq![char_of_digit(value)]
    } else {
        seq!['?']
    }
}

/// The character of a decimal digit.
pub open spec fn char_of_digit(d: i64) -> char {
    if d == 0 {
        '0'
    } else if d == 1 {
        '1'
    } else if d == 2 {
        '2'
    } else if d == 3 {
        '3'
    } else if d == 4 {
        '4'
    } else if d == 5 {
        '5'
    } else if d == 6 {
        '6'
    } else if d == 7 {
        '7'
    } else if d == 8 {
        '8'
    } else {
        '9'
    }
}

/// The label shown for a rank.
pub fn card_rank(value: i64) -> (label: &'static str)
    ensures
        label@ == rank_label(value),
{
    proof {
        reveal_strlit("A");
        reveal_strlit("J");
        reveal_strlit("Q");
        reveal_strlit("K");
        reveal_strlit("2");
        reveal_strlit("3");
        reveal_strlit("4");
        reveal_strlit("5");
        reveal_strlit("6");
        reveal_strlit("7");
        reveal_strlit("8");
        reveal_strlit("9");
        reveal_strlit("10");
        reveal_strlit("?");
    }
    match value {
        1 => "A",
        11 => "J",
        12 => "Q",
        13 => "K",
        2 => "2",
        3 => "3",
        4 => "4",
        5 => "5",
        6 => "6",
        7 => "7",
        8 => "8",
        9 => "9",
        10 => "10",
        _ => "?",
    }
}

/// The place of a suit in the tie-break order: diamonds, spades, hearts, clubs.
pub open spec fn suit_rank(suit: Suit) -> int {
    match suit {
        Suit::Diamonds => 0,
        Suit::Spades => 1,
        Suit::Hearts => 2,
        Suit::Clubs => 3,
    }
}

/// Whether card `a` stands above card `b`: a higher rank (ace lowest, king
/// highest), or on equal ranks a later suit in the order diamonds, spades,
/// hearts, clubs.
pub open spec fn card_above(a: Card, b: Card) -> bool {
    a.rank > b.rank || (a.rank == b.rank && suit_rank(a.suit) > suit_rank(b.suit))
}

/// The place of a suit in the tie-break order.
pub fn suit_order(suit: Suit) -> (place: u8)
    ensures
        place == suit_rank(suit),
{
    match suit {
        Suit::Diamonds => 0,
        Suit::Spades => 1,
        Suit::Hearts => 2,
        Suit::Clubs => 3,
    }
}

/// Orders two cards by rank, ties broken by suit (diamonds, spades, hearts,
/// clubs); only the same card is `Equal`.
pub fn compare_cards(left: Card, right: Card) -> (order: Ordering)
    ensures
        card_above(right, left) ==> order == Ordering::Less,
        left == right ==> order == Ordering::Equal,
        card_above(left, right) ==> order == Ordering::Greater,
{
    if left.rank < right.rank {
        Ordering::Less
    } else if left.rank > right.rank {
        Ordering::Greater
    } else {
        let l = suit_order(left.suit);
        let r = suit_order(right.suit);
        if l < r {
            Ordering::Less
        } else if l > r {
            Ordering::Greater
        } else {
            assert(left.suit == right.suit);
            Ordering::Equal
        }
    }
}

/// Whether a guess wins: the "higher" button wins when the next card stands
/// above the current one, any other button when it stands below (rank first,
/// then suit).
pub fn is_winning_guess(custom_id: &str, current_card: Card, next_card: Card) -> (won: bool)
    ensures
        won == if custom_id@ == high_button_id() {
            card_above(next_card, current_card)
        } else {
            card_above(current_card, next_card)
        },
{
    let comparison = compare_cards(next_card, current_card);
    if str_eq(custom_id, "highlow_high") {
        match comparison {
            Ordering::Greater => true,
            _ => false,
        }
    } else {
        match comparison {
            Ordering::Less => true,
            _ => false,
        }
    }
}

/// The rank label padded with spaces to two characters.
pub open spec fn padded_rank_label(value: i64) -> Seq<char> {
    if rank_label(value).len() < 2 {
        rank_label(value) + seq![' ']
    } else {
        rank_label(value)
    }
}

/// The boxed drawing of a card shown in the game messages.
pub open spec fn card_text_of(card: Card) -> Seq<char> {
    "```\n\u{250c}\u{2500}\u{2500}\u{2500}\u{2500}\u{2500}\u{2500}\u{2500}\u{2510}\n\u{2502}  "@
        + padded_rank_label(card.rank) + seq![' '] + suit_symbol_of(card.suit)
        + " \u{2502}\n\u{2514}\u{2500}\u{2500}\u{2500}\u{2500}\u{2500}\u{2500}\u{2500}\u{2518}\n```"@
}

/// Draws `card` as a small box holding its rank and suit.
pub fn card_text(card: Card) -> (text: String)
    ensures
        text@ == card_text_of(card),
{
    let rank = card_rank(card.rank);
    let mut text = String::from_str(
        "```\n\u{250c}\u{2500}\u{2500}\u{2500}\u{2500}\u{2500}\u{2500}\u{2500}\u{2510}\n\u{2502}  ",
    );
    text.append(rank);
    if rank.unicode_len() < 2 {
        let pad = " ";
        proof {
            reveal_strlit(" ");
        }
        text.append(pad);
    }
    let gap = " ";
    proof {
        reveal_strlit(" ");
    }
    text.append(gap);
    text.append(card.suit.symbol());
    text.append(
        " \u{2502}\n\u{2514}\u{2500}\u{2500}\u{2500}\u{2500}\u{2500}\u{2500}\u{2500}\u{2518}\n```",
    );
    assert(text@ =~= card_text_of(card));
    text
}

} // verus!
