//! The card model: suits, ranks, and the immutable playing card.

use vstd::prelude::*;

verus! {

/// One of the four French suits.
#[derive(Clone, Copy, Debug, PartialEq, Eq, Structural)]
pub enum Suit {
    Spades,
    Hearts,
    Clubs,
    Diamonds,
}

/// The thirteen ranks, ordered from Two up to Ace.
#[derive(Clone, Copy, Debug, PartialEq, Eq, Structural)]
pub enum Rank {
    Two,
    Three,
    Four,
    Five,
    Six,
    Seven,
    Eight,
    Nine,
    Ten,
    Jack,
    Queen,
    King,
    Ace,
}

/// An immutable playing card: a suit and a rank. Equality is structural;
/// a card has no identity beyond its suit and rank.
#[derive(Clone, Copy, Debug, PartialEq, Eq, Structural)]
pub struct Card {
    pub suit: Suit,
    pub rank: Rank,
}

/// Ordering value of a rank: the numeric ranks count as themselves,
/// Jack = 11, Queen = 12, King = 13, Ace = 14. This order drives straight
/// detection, the high-card choice, and sorting a hand by rank.
pub open spec fn rank_order(r: Rank) -> int {
    match r {
        Rank::Two => 2,
        Rank::Three => 3,
        Rank::Four => 4,
        Rank::Five => 5,
        Rank::Six => 6,
        Rank::Seven => 7,
        Rank::Eight => 8,
        Rank::Nine => 9,
        Rank::Ten => 10,
        Rank::Jack => 11,
        Rank::Queen => 12,
        Rank::King => 13,
        Rank::Ace => 14,
    }
}

/// Executable counterpart of [`rank_order`].
pub fn rank_order_value(r: Rank) -> (v: u8)
    ensures
        v as int == rank_order(r),
{
    match r {
        Rank::Two => 2,
        Rank::Three => 3,
        Rank::Four => 4,
        Rank::Five => 5,
        Rank::Six => 6,
        Rank::Seven => 7,
        Rank::Eight => 8,
        Rank::Nine => 9,
        Rank::Ten => 10,
        Rank::Jack => 11,
        Rank::Queen => 12,
        Rank::King => 13,
        Rank::Ace => 14,
    }
}

/// Chip face value of a rank when an attributed card scores:
/// Ace = 11, King/Queen/Jack = 10, numeric ranks = their value.
pub open spec fn face_value(r: Rank) -> int {
    match r {
        Rank::Ace => 11,
        Rank::King => 10,
        Rank::Queen => 10,
        Rank::Jack => 10,
        _ => rank_order(r),
    }
}

/// Executable counterpart of [`face_value`].
pub fn face_chips(r: Rank) -> (v: u8)
    ensures
        v as int == face_value(r),
{
    match r {
        Rank::Ace => 11,
        Rank::King => 10,
        Rank::Queen => 10,
        Rank::Jack => 10,
        _ => rank_order_value(r),
    }
}

/// Position of a suit in the fixed display order Spades, Hearts, Clubs,
/// Diamonds; used when sorting a hand by suit.
pub open spec fn suit_order(s: Suit) -> int {
    match s {
        Suit::Spades => 0,
        Suit::Hearts => 1,
        Suit::Clubs => 2,
        Suit::Diamonds => 3,
    }
}

/// Executable counterpart of [`suit_order`].
pub fn suit_order_value(s: Suit) -> (v: u8)
    ensures
        v as int == suit_order(s),
{
    match s {
        Suit::Spades => 0,
        Suit::Hearts => 1,
        Suit::Clubs => 2,
        Suit::Diamonds => 3,
    }
}

/// Suit at a given position of the display order.
pub open spec fn suit_of_index(i: int) -> Suit {
    if i == 0 {
        Suit::Spades
    } else if i == 1 {
        Suit::Hearts
    } else if i == 2 {
        Suit::Clubs
    } else {
        Suit::Diamonds
    }
}

/// Rank at a given position of the Two..Ace order.
pub open spec fn rank_of_index(i: int) -> Rank {
    if i == 0 {
        Rank::Two
    } else if i == 1 {
        Rank::Three
    } else if i == 2 {
        Rank::Four
    } else if i == 3 {
        Rank::Five
    } else if i == 4 {
        Rank::Six
    } else if i == 5 {
        Rank::Seven
    } else if i == 6 {
        Rank::Eight
    } else if i == 7 {
        Rank::Nine
    } else if i == 8 {
        Rank::Ten
    } else if i == 9 {
        Rank::Jack
    } else if i == 10 {
        Rank::Queen
    } else if i == 11 {
        Rank::King
    } else {
        Rank::Ace
    }
}

/// The standard 52-card deck: for each suit in display order, the thirteen
/// ranks from Two up to Ace.
pub open spec fn standard_deck_seq() -> Seq<Card> {
    Seq::new(52, |i: int| Card { suit: suit_of_index(i / 13), rank: rank_of_index(i % 13) })
}

fn suit_at(i: usize) -> (s: Suit)
    requires
        i < 4,
    ensures
        s == suit_of_index(i as int),
{
    if i == 0 {
        Suit::Spades
    } else if i == 1 {
        Suit::Hearts
    } else if i == 2 {
        Suit::Clubs
    } else {
        Suit::Diamonds
    }
}

fn rank_at(i: usize) -> (r: Rank)
    requires
        i < 13,
    ensures
        r == rank_of_index(i as int),
{
    if i == 0 {
        Rank::Two
    } else if i == 1 {
        Rank::Three
    } else if i == 2 {
        Rank::Four
    } else if i == 3 {
        Rank::Five
    } else if i == 4 {
        Rank::Six
    } else if i == 5 {
        Rank::Seven
    } else if i == 6 {
        Rank::Eight
    } else if i == 7 {
        Rank::Nine
    } else if i == 8 {
        Rank::Ten
    } else if i == 9 {
        Rank::Jack
    } else if i == 10 {
        Rank::Queen
    } else if i == 11 {
        Rank::King
    } else {
        Rank::Ace
    }
}

/// Builds the standard 52-card deck.
pub fn standard_deck() -> (deck: Vec<Card>)
    ensures
        deck@ == standard_deck_seq(),
{
    let mut deck: Vec<Card> = Vec::new();
    for si in 0..4usize
        invariant
            deck@.len() == si * 13,
            forall|k: int|
                0 <= k < deck@.len() ==> deck@[k] == #[trigger] standard_deck_seq()[k],
    {
        let suit = suit_at(si);
        for ri in 0..13usize
            invariant
                si < 4,
                suit == suit_of_index(si as int),
                deck@.len() == si * 13 + ri,
            forall|k: int|
                0 <= k < deck@.len() ==> deck@[k] == #[trigger] standard_deck_seq()[k],
        {
            assert((si * 13 + ri) / 13 == si && (si * 13 + ri) % 13 == ri) by (nonlinear_arith)
                requires
                    si < 4,
                    ri < 13,
            ;
            deck.push(Card { suit, rank: rank_at(ri) });
        }
    }
    assert(deck@ =~= standard_deck_seq());
    deck
}

} // verus!
