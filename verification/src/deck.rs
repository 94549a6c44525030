use vstd::prelude::*;
use vstd::seq_lib::*;
use rand::rngs::ThreadRng;
use rand::seq::SliceRandom;
use crate::cards::{Card, Suit};

verus! {

#[verifier::external_type_specification]
#[verifier::external_body]
pub struct ExThreadRng(ThreadRng);

/// `rand::rng`: a handle on the thread-local random generator.
#[verifier::external_body]
fn thread_rng() -> ThreadRng {
    rand::rng()
}

/// `SliceRandom::shuffle`: puts the items in a random order.  Only what holds
/// of every outcome is claimed: the same items, each as often as before.
#[verifier::external_body]
fn shuffle<T>(items: &mut Vec<T>, rng: &mut ThreadRng)
    ensures
        final(items)@.len() == old(items)@.len(),
        final(items)@.to_multiset() == old(items)@.to_multiset(),
{
    items.shuffle(rng)
}

/// A rank that a card of the deck can have.
pub open spec fn valid_rank(rank: i64) -> bool {
    1 <= rank <= 13
}

/// Whether `c` is one of the 52 cards of a standard deck.
pub open spec fn is_deck_card(c: Card) -> bool {
    valid_rank(c.rank)
}

/// A full deck: 52 distinct cards, each of a valid rank, holding every card.
pub open spec fn is_full_deck(deck: Seq<Card>) -> bool {
    &&& deck.len() == 52
    &&& deck.no_duplicates()
    &&& forall|i: int| 0 <= i < deck.len() ==> is_deck_card(#[trigger] deck[i])
    &&& forall|c: Card| is_deck_card(c) ==> deck.contains(c)
}

proof fn lemma_same_multiset_no_duplicates<T>(a: Seq<T>, b: Seq<T>)
    requires
        a.to_multiset() == b.to_multiset(),
        b.no_duplicates(),
    ensures
        a.no_duplicates(),
        forall|x: T| a.contains(x) <==> b.contains(x),
{
    broadcast use group_to_multiset_ensures;

    b.lemma_multiset_has_no_duplicates();
    a.lemma_multiset_has_no_duplicates_conv();
    assert forall|x: T| a.contains(x) <==> b.contains(x) by {
        to_multiset_contains(a, x);
        to_multiset_contains(b, x);
    }
}

/// The ranks 1 to 13 in increasing order.
fn ordered_ranks() -> (ranks: Vec<i64>)
    ensures
        ranks@.len() == 13,
        forall|i: int| 0 <= i < 13 ==> #[trigger] ranks@[i] == i + 1,
{
    let mut ranks: Vec<i64> = Vec::new();
    let mut r: i64 = 1;
    while r <= 13
        invariant
            1 <= r <= 14,
            ranks@.len() == r - 1,
            forall|i: int| 0 <= i < r - 1 ==> #[trigger] ranks@[i] == i + 1,
        decreases 14 - r,
    {
        ranks.push(r);
        r = r + 1;
    }
    ranks
}

/// The cards laid out from a suit order and, for each suit, a rank order:
/// the 13 cards of `suits[0]` in the order `ranks[0]`, then those of
/// `suits[1]` in the order `ranks[1]`, and so on.
pub fn deck_from_orders(suits: &Vec<Suit>, ranks: &Vec<Vec<i64>>) -> (deck: Vec<Card>)
    requires
        suits@.len() == 4,
        ranks@.len() == 4,
        forall|s: int| 0 <= s < 4 ==> (#[trigger] ranks@[s])@.len() == 13,
    ensures
        deck@.len() == 52,
        forall|s: int, r: int|
            0 <= s < 4 && 0 <= r < 13 ==> deck@[13 * s + r] == (Card {
                rank: ranks@[s]@[r],
                suit: suits@[s],
            }),
{
    let mut deck: Vec<Card> = Vec::new();
    let mut k: usize = 0;
    while k < 4
        invariant
            suits@.len() == 4,
            ranks@.len() == 4,
            forall|s: int| 0 <= s < 4 ==> (#[trigger] ranks@[s])@.len() == 13,
            k <= 4,
            deck@.len() == 13 * k,
            forall|s: int, r: int|
                0 <= s < k && 0 <= r < 13 ==> deck@[13 * s + r] == (Card {
                    rank: ranks@[s]@[r],
                    suit: suits@[s],
                }),
        decreases 4 - k,
    {
        let suit = suits[k];
        let order = &ranks[k];
        let mut j: usize = 0;
        while j < 13
            invariant
                suits@.len() == 4,
                ranks@.len() == 4,
                k < 4,
                suit == suits@[k as int],
                *order == ranks@[k as int],
                order@.len() == 13,
                j <= 13,
                deck@.len() == 13 * k + j,
                forall|s: int, r: int|
                    0 <= s < k && 0 <= r < 13 ==> deck@[13 * s + r] == (Card {
                        rank: ranks@[s]@[r],
                        suit: suits@[s],
                    }),
                forall|r: int|
                    0 <= r < j ==> deck@[13 * k + r] == (Card { rank: order@[r], suit }),
            decreases 13 - j,
        {
            deck.push(Card { rank: order[j], suit });
            j = j + 1;
        }
        k = k + 1;
    }
    deck
}

/// Every suit exactly once.
pub open spec fn is_suit_order(suits: Seq<Suit>) -> bool {
    &&& suits.len() == 4
    &&& suits.no_duplicates()
    &&& forall|x: Suit| suits.contains(x)
}

/// Every rank 1 to 13 exactly once.
pub open spec fn is_rank_order(ranks: Seq<i64>) -> bool {
    &&& ranks.len() == 13
    &&& ranks.no_duplicates()
    &&& forall|x: i64| ranks.contains(x) <==> valid_rank(x)
}

/// The card at place `r` of the `k`-th block of 13 cards of `deck`.
pub open spec fn block_card(deck: Seq<Card>, k: int, r: int) -> Card {
    deck[13 * k + r]
}

/// The deck is four blocks of 13 cards, the cards of each block of one suit.
pub open spec fn in_suit_blocks(deck: Seq<Card>) -> bool {
    forall|k: int, r: int|
        0 <= k < 4 && 0 <= r < 13 ==> (#[trigger] block_card(deck, k, r)).suit == block_card(
            deck,
            k,
            0,
        ).suit
}

proof fn lemma_split_index(i: int) -> (sr: (int, int))
    requires
        0 <= i < 52,
    ensures
        0 <= sr.0 < 4,
        0 <= sr.1 < 13,
        i == 13 * sr.0 + sr.1,
{
    if i < 13 {
        (0, i)
    } else if i < 26 {
        (1, i - 13)
    } else if i < 39 {
        (2, i - 26)
    } else {
        (3, i - 39)
    }
}

proof fn lemma_layout_is_full_deck(layout: Seq<Card>, suits: Seq<Suit>, ranks: Seq<Seq<i64>>)
    requires
        layout.len() == 52,
        ranks.len() == 4,
        is_suit_order(suits),
        forall|s: int| 0 <= s < 4 ==> is_rank_order(#[trigger] ranks[s]),
        forall|s: int, r: int|
            0 <= s < 4 && 0 <= r < 13 ==> layout[13 * s + r] == (Card {
                rank: ranks[s][r],
                suit: suits[s],
            }),
    ensures
        is_full_deck(layout),
{
    assert forall|i: int, j: int| 0 <= i < 52 && 0 <= j < 52 && i != j implies layout[i]
        != layout[j] by {
        let (si, ri) = lemma_split_index(i);
        let (sj, rj) = lemma_split_index(j);
        assert(layout[13 * si + ri] == (Card { rank: ranks[si][ri], suit: suits[si] }));
        assert(layout[13 * sj + rj] == (Card { rank: ranks[sj][rj], suit: suits[sj] }));
        if si == sj {
            assert(is_rank_order(ranks[si]));
            assert(ranks[si][ri] != ranks[si][rj]);
        } else {
            assert(suits[si] != suits[sj]);
        }
    }
    assert forall|i: int| 0 <= i < 52 implies is_deck_card(#[trigger] layout[i]) by {
        let (si, ri) = lemma_split_index(i);
        assert(layout[13 * si + ri] == (Card { rank: ranks[si][ri], suit: suits[si] }));
        assert(is_rank_order(ranks[si]));
        assert(ranks[si].contains(ranks[si][ri]));
    }
    assert forall|c: Card| is_deck_card(c) implies layout.contains(c) by {
        assert(suits.contains(c.suit));
        let s = choose|s: int| 0 <= s < suits.len() && suits[s] == c.suit;
        assert(is_rank_order(ranks[s]));
        assert(ranks[s].contains(c.rank));
        let r = choose|r: int| 0 <= r < ranks[s].len() && ranks[s][r] == c.rank;
        assert(layout[13 * s + r] == c);
    }
}

proof fn lemma_reversed_full_deck(layout: Seq<Card>, deck: Seq<Card>)
    requires
        is_full_deck(layout),
        deck.len() == 52,
        forall|j: int| 0 <= j < 52 ==> #[trigger] deck[j] == layout[51 - j],
    ensures
        is_full_deck(deck),
{
    assert forall|a: int, b: int| 0 <= a < 52 && 0 <= b < 52 && a != b implies deck[a]
        != deck[b] by {
        assert(deck[a] == layout[51 - a]);
        assert(deck[b] == layout[51 - b]);
    }
    assert forall|i: int| 0 <= i < deck.len() implies is_deck_card(#[trigger] deck[i]) by {
        assert(deck[i] == layout[51 - i]);
    }
    assert forall|c: Card| is_deck_card(c) implies deck.contains(c) by {
        let idx = choose|idx: int| 0 <= idx < layout.len() && layout[idx] == c;
        assert(deck[51 - idx] == c);
    }
}

/// The cards of `layout` in the opposite order.
fn reversed_cards(layout: Vec<Card>) -> (deck: Vec<Card>)
    ensures
        deck@.len() == layout@.len(),
        forall|j: int| 0 <= j < layout@.len() ==> #[trigger] deck@[j] == layout@[layout@.len() - 1 - j],
{
    let ghost full = layout@;
    let mut rest = layout;
    let mut deck: Vec<Card> = Vec::new();
    while rest.len() > 0
        invariant
            rest@.len() <= full.len(),
            rest@ == full.subrange(0, rest@.len() as int),
            deck@.len() == full.len() - rest@.len(),
            forall|j: int| 0 <= j < deck@.len() ==> #[trigger] deck@[j] == full[full.len() - 1 - j],
        decreases rest@.len(),
    {
        let card = rest.pop().unwrap();
        deck.push(card);
    }
    deck
}

/// A shuffled deck of the 52 cards, drawn from the end: the suits are put in
/// a random order and, for each suit, the ranks too; the cards are laid out
/// by `deck_from_orders` and then turned around, so the first card laid out
/// is drawn last.  Each suit stays one block of 13 cards.
pub fn shuffled_deck() -> (deck: Vec<Card>)
    ensures
        is_full_deck(deck@),
        in_suit_blocks(deck@),
{
    let mut rng = thread_rng();
    let all = Suit::all();
    let mut suits: Vec<Suit> = Vec::new();
    suits.push(all[0]);
    suits.push(all[1]);
    suits.push(all[2]);
    suits.push(all[3]);
    let ghost fixed_suits = suits@;
    assert(fixed_suits.no_duplicates());
    assert forall|x: Suit| fixed_suits.contains(x) by {
        match x {
            Suit::Hearts => assert(fixed_suits[0] == x),
            Suit::Diamonds => assert(fixed_suits[1] == x),
            Suit::Clubs => assert(fixed_suits[2] == x),
            Suit::Spades => assert(fixed_suits[3] == x),
        }
    }
    shuffle(&mut suits, &mut rng);
    proof {
        lemma_same_multiset_no_duplicates(suits@, fixed_suits);
    }
    let mut ranks: Vec<Vec<i64>> = Vec::new();
    let mut k: usize = 0;
    while k < 4
        invariant
            k <= 4,
            ranks@.len() == k,
            forall|s: int| 0 <= s < k ==> is_rank_order((#[trigger] ranks@[s])@),
        decreases 4 - k,
    {
        let mut order = ordered_ranks();
        let ghost fixed = order@;
        assert(fixed.no_duplicates());
        assert forall|x: i64| fixed.contains(x) <==> valid_rank(x) by {
            if valid_rank(x) {
                assert(fixed[x - 1] == x);
            }
        }
        shuffle(&mut order, &mut rng);
        proof {
            lemma_same_multiset_no_duplicates(order@, fixed);
        }
        ranks.push(order);
        k = k + 1;
    }
    let layout = deck_from_orders(&suits, &ranks);
    let ghost rank_views = Seq::new(4, |s: int| ranks@[s]@);
    proof {
        lemma_layout_is_full_deck(layout@, suits@, rank_views);
    }
    let ghost laid = layout@;
    let deck = reversed_cards(layout);
    proof {
        lemma_reversed_full_deck(laid, deck@);
        assert forall|k: int, r: int|
            0 <= k < 4 && 0 <= r < 13 implies (#[trigger] block_card(deck@, k, r)).suit
            == block_card(deck@, k, 0).suit by {
            let s = 3 - k;
            assert(deck@[13 * k + r] == laid[51 - (13 * k + r)]);
            assert(deck@[13 * k + 0] == laid[51 - (13 * k + 0)]);
            assert(51 - (13 * k + r) == 13 * s + (12 - r));
            assert(51 - (13 * k + 0) == 13 * s + 12);
            assert(laid[13 * s + (12 - r)] == (Card { rank: ranks@[s]@[12 - r], suit: suits@[s] }));
            assert(laid[13 * s + 12] == (Card { rank: ranks@[s]@[12], suit: suits@[s] }));
        }
    }
    deck
}

/// Takes the card at the end of the deck, if there is one.
pub fn draw_card(deck: &mut Vec<Card>) -> (card: Option<Card>)
    ensures
        old(deck)@.len() > 0 ==> card == Some(old(deck)@.last()) && final(deck)@ == old(
            deck,
        )@.drop_last(),
        old(deck)@.len() == 0 ==> card.is_none() && final(deck)@ == old(deck)@,
{
    deck.pop()
}

} // verus!
