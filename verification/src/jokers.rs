//! The ability protocol: named passive jokers with optional hook points
//! (hand played, card scored, end of round) and the name registry that
//! resolves a joker by its display name.

use vstd::prelude::*;

verus! {

use crate::cards::{Card, Suit};
use crate::hands::{PokerHand, classify_cat, determine_poker_hand};

/// The named joker abilities. Each variant is stateless; what a joker
/// does is fixed by its variant alone, so the hooks below are pure
/// functions of the variant and their arguments.
#[derive(Clone, Copy, Debug, PartialEq, Eq, Structural)]
pub enum Joker {
    Jimbo,
    Greedy,
    Lusty,
    Wrathful,
    Gluttonous,
    Jolly,
    Zany,
    Mad,
    Crazy,
    Droll,
    Sly,
    Wily,
    Clever,
    Devious,
    Crafty,
}

/// The hand families the conditional jokers react to: a hand "contains a
/// pair" when its category implies two cards of one rank.
pub open spec fn contains_pair(h: PokerHand) -> bool {
    match h {
        PokerHand::Pair => true,
        PokerHand::TwoPair => true,
        PokerHand::ThreeOfAKind => true,
        PokerHand::FullHouse => true,
        PokerHand::FourOfAKind => true,
        PokerHand::FiveOfAKind => true,
        PokerHand::FlushHouse => true,
        PokerHand::FlushFive => true,
        _ => false,
    }
}

/// Categories that imply three cards of one rank.
pub open spec fn contains_three(h: PokerHand) -> bool {
    match h {
        PokerHand::ThreeOfAKind => true,
        PokerHand::FullHouse => true,
        PokerHand::FourOfAKind => true,
        PokerHand::FiveOfAKind => true,
        PokerHand::FlushHouse => true,
        PokerHand::FlushFive => true,
        _ => false,
    }
}

/// Categories that imply two distinct pairs.
pub open spec fn contains_two_pair(h: PokerHand) -> bool {
    match h {
        PokerHand::TwoPair => true,
        PokerHand::FullHouse => true,
        PokerHand::FlushHouse => true,
        _ => false,
    }
}

/// Categories that imply a straight.
pub open spec fn contains_straight(h: PokerHand) -> bool {
    match h {
        PokerHand::Straight => true,
        PokerHand::StraightFlush => true,
        _ => false,
    }
}

/// Categories that imply a flush.
pub open spec fn contains_flush(h: PokerHand) -> bool {
    match h {
        PokerHand::Flush => true,
        PokerHand::StraightFlush => true,
        PokerHand::FlushHouse => true,
        PokerHand::FlushFive => true,
        _ => false,
    }
}

/// Effect of one joker's card-scored hook on the (chips, mult)
/// accumulator: the four suit jokers add 3 mult when the scored card
/// matches their suit; every other joker leaves the accumulator alone.
pub open spec fn on_score_step(j: Joker, c: Card, cm: (int, int)) -> (int, int) {
    match j {
        Joker::Greedy => if c.suit == Suit::Diamonds {
            (cm.0, cm.1 + 3)
        } else {
            cm
        },
        Joker::Lusty => if c.suit == Suit::Hearts {
            (cm.0, cm.1 + 3)
        } else {
            cm
        },
        Joker::Wrathful => if c.suit == Suit::Spades {
            (cm.0, cm.1 + 3)
        } else {
            cm
        },
        Joker::Gluttonous => if c.suit == Suit::Clubs {
            (cm.0, cm.1 + 3)
        } else {
            cm
        },
        _ => cm,
    }
}

/// Effect of a whole held collection's card-scored hooks, fired in held
/// order.
pub open spec fn on_score_all(jokers: Seq<Joker>, c: Card, cm: (int, int)) -> (int, int)
    decreases jokers.len(),
{
    if jokers.len() == 0 {
        cm
    } else {
        on_score_step(jokers.last(), c, on_score_all(jokers.drop_last(), c, cm))
    }
}

/// The cards at the attributed positions, in attribution order.
pub open spec fn scoring_cards(cards: Seq<Card>, attr: Seq<usize>) -> Seq<Card> {
    attr.map_values(|i: usize| cards[i as int])
}

/// The (chips, mult) bonus a joker's end-of-round hook grants for a hand
/// of the given category.
pub open spec fn end_round_bonus(j: Joker, cat: PokerHand) -> (int, int) {
    match j {
        Joker::Jimbo => (0, 4),
        Joker::Jolly => if contains_pair(cat) {
            (0, 8)
        } else {
            (0, 0)
        },
        Joker::Zany => if contains_three(cat) {
            (0, 12)
        } else {
            (0, 0)
        },
        Joker::Mad => if contains_two_pair(cat) {
            (0, 10)
        } else {
            (0, 0)
        },
        Joker::Crazy => if contains_straight(cat) {
            (0, 12)
        } else {
            (0, 0)
        },
        Joker::Droll => if contains_flush(cat) {
            (0, 10)
        } else {
            (0, 0)
        },
        Joker::Sly => if contains_pair(cat) {
            (50, 0)
        } else {
            (0, 0)
        },
        Joker::Wily => if contains_three(cat) {
            (100, 0)
        } else {
            (0, 0)
        },
        Joker::Clever => if contains_two_pair(cat) {
            (80, 0)
        } else {
            (0, 0)
        },
        Joker::Devious => if contains_straight(cat) {
            (100, 0)
        } else {
            (0, 0)
        },
        Joker::Crafty => if contains_flush(cat) {
            (80, 0)
        } else {
            (0, 0)
        },
        _ => (0, 0),
    }
}

/// Effect of one joker's end-of-round hook: it re-derives the category of
/// the cards that actually scored and adds its bonus.
pub open spec fn end_round_step(j: Joker, cards: Seq<Card>, attr: Seq<usize>, cm: (int, int)) -> (
    int,
    int,
) {
    let b = end_round_bonus(j, classify_cat(scoring_cards(cards, attr)));
    (cm.0 + b.0, cm.1 + b.1)
}

/// Display name of each joker, as used by the registry.
pub open spec fn joker_name(j: Joker) -> Seq<char> {
    match j {
        Joker::Jimbo => "Joker"@,
        Joker::Greedy => "Greedy Joker"@,
        Joker::Lusty => "Lusty Joker"@,
        Joker::Wrathful => "Wrathful Joker"@,
        Joker::Gluttonous => "Gluttonous Joker"@,
        Joker::Jolly => "Jolly Joker"@,
        Joker::Zany => "Zany Joker"@,
        Joker::Mad => "Mad Joker"@,
        Joker::Crazy => "Crazy Joker"@,
        Joker::Droll => "Droll Joker"@,
        Joker::Sly => "Sly Joker"@,
        Joker::Wily => "Wily Joker"@,
        Joker::Clever => "Clever Joker"@,
        Joker::Devious => "Devious Joker"@,
        Joker::Crafty => "Crafty Joker"@,
    }
}

/// The joker the registry resolves a name to: each known display name
/// maps to its variant, and any unrecognized name deliberately falls
/// back to the plain Joker rather than failing.
pub open spec fn joker_for_name(s: Seq<char>) -> Joker {
    if s == "Joker"@ {
        Joker::Jimbo
    } else if s == "Greedy Joker"@ {
        Joker::Greedy
    } else if s == "Lusty Joker"@ {
        Joker::Lusty
    } else if s == "Wrathful Joker"@ {
        Joker::Wrathful
    } else if s == "Gluttonous Joker"@ {
        Joker::Gluttonous
    } else if s == "Jolly Joker"@ {
        Joker::Jolly
    } else if s == "Zany Joker"@ {
        Joker::Zany
    } else if s == "Mad Joker"@ {
        Joker::Mad
    } else if s == "Crazy Joker"@ {
        Joker::Crazy
    } else if s == "Droll Joker"@ {
        Joker::Droll
    } else if s == "Sly Joker"@ {
        Joker::Sly
    } else if s == "Wily Joker"@ {
        Joker::Wily
    } else if s == "Clever Joker"@ {
        Joker::Clever
    } else if s == "Devious Joker"@ {
        Joker::Devious
    } else if s == "Crafty Joker"@ {
        Joker::Crafty
    } else {
        Joker::Jimbo
    }
}

/// Resolution inverts naming: the registry resolves each joker's own
/// display name back to that joker.
pub proof fn lemma_registry_name_roundtrip(j: Joker)
    ensures
        joker_for_name(joker_name(j)) == j,
{
    reveal_strlit("Joker");
    reveal_strlit("Greedy Joker");
    reveal_strlit("Lusty Joker");
    reveal_strlit("Wrathful Joker");
    reveal_strlit("Gluttonous Joker");
    reveal_strlit("Jolly Joker");
    reveal_strlit("Zany Joker");
    reveal_strlit("Mad Joker");
    reveal_strlit("Crazy Joker");
    reveal_strlit("Droll Joker");
    reveal_strlit("Sly Joker");
    reveal_strlit("Wily Joker");
    reveal_strlit("Clever Joker");
    reveal_strlit("Devious Joker");
    reveal_strlit("Crafty Joker");
    assert("Jolly Joker"@[0] != "Lusty Joker"@[0]);
    assert("Crazy Joker"@[0] != "Lusty Joker"@[0]);
    assert("Crazy Joker"@[0] != "Jolly Joker"@[0]);
    assert("Droll Joker"@[0] != "Lusty Joker"@[0]);
    assert("Droll Joker"@[0] != "Jolly Joker"@[0]);
    assert("Droll Joker"@[0] != "Crazy Joker"@[0]);
    assert("Sly Joker"@[0] != "Mad Joker"@[0]);
    assert("Wily Joker"@[0] != "Zany Joker"@[0]);
    assert("Clever Joker"@[0] != "Greedy Joker"@[0]);
    assert("Crafty Joker"@[0] != "Greedy Joker"@[0]);
    assert("Crafty Joker"@[1] != "Clever Joker"@[1]);
    assert("Joker"@.len() == 5);
    assert("Greedy Joker"@.len() == 12);
    assert("Lusty Joker"@.len() == 11);
    assert("Wrathful Joker"@.len() == 14);
    assert("Gluttonous Joker"@.len() == 16);
    assert("Jolly Joker"@.len() == 11);
    assert("Zany Joker"@.len() == 10);
    assert("Mad Joker"@.len() == 9);
    assert("Crazy Joker"@.len() == 11);
    assert("Droll Joker"@.len() == 11);
    assert("Sly Joker"@.len() == 9);
    assert("Wily Joker"@.len() == 10);
    assert("Clever Joker"@.len() == 12);
    assert("Devious Joker"@.len() == 13);
    assert("Crafty Joker"@.len() == 12);
    match j {
        Joker::Jimbo => assert(joker_for_name("Joker"@) == Joker::Jimbo),
        Joker::Greedy => assert(joker_for_name("Greedy Joker"@) == Joker::Greedy),
        Joker::Lusty => assert(joker_for_name("Lusty Joker"@) == Joker::Lusty),
        Joker::Wrathful => assert(joker_for_name("Wrathful Joker"@) == Joker::Wrathful),
        Joker::Gluttonous => assert(joker_for_name("Gluttonous Joker"@) == Joker::Gluttonous),
        Joker::Jolly => assert(joker_for_name("Jolly Joker"@) == Joker::Jolly),
        Joker::Zany => assert(joker_for_name("Zany Joker"@) == Joker::Zany),
        Joker::Mad => assert(joker_for_name("Mad Joker"@) == Joker::Mad),
        Joker::Crazy => assert(joker_for_name("Crazy Joker"@) == Joker::Crazy),
        Joker::Droll => assert(joker_for_name("Droll Joker"@) == Joker::Droll),
        Joker::Sly => assert(joker_for_name("Sly Joker"@) == Joker::Sly),
        Joker::Wily => assert(joker_for_name("Wily Joker"@) == Joker::Wily),
        Joker::Clever => assert(joker_for_name("Clever Joker"@) == Joker::Clever),
        Joker::Devious => assert(joker_for_name("Devious Joker"@) == Joker::Devious),
        Joker::Crafty => assert(joker_for_name("Crafty Joker"@) == Joker::Crafty),
    }
}

/// Compares two string slices by content.
fn str_eq(a: &str, b: &str) -> (r: bool)
    ensures
        r == (a@ == b@),
{
    let sa: String = a.to_owned();
    let sb: String = b.to_owned();
    sa == sb
}

impl Joker {
    /// Display name of the joker.
    pub fn name(&self) -> (r: &'static str)
        ensures
            r@ == joker_name(*self),
    {
        match self {
            Joker::Jimbo => "Joker",
            Joker::Greedy => "Greedy Joker",
            Joker::Lusty => "Lusty Joker",
            Joker::Wrathful => "Wrathful Joker",
            Joker::Gluttonous => "Gluttonous Joker",
            Joker::Jolly => "Jolly Joker",
            Joker::Zany => "Zany Joker",
            Joker::Mad => "Mad Joker",
            Joker::Crazy => "Crazy Joker",
            Joker::Droll => "Droll Joker",
            Joker::Sly => "Sly Joker",
            Joker::Wily => "Wily Joker",
            Joker::Clever => "Clever Joker",
            Joker::Devious => "Devious Joker",
            Joker::Crafty => "Crafty Joker",
        }
    }

    /// Hand-played hook. No joker in the base set reacts to it, so it
    /// leaves the accumulator unchanged.
    pub fn on_play(&self, chips: &mut u64, mult: &mut u64, cards: &Vec<Card>, played: &Vec<usize>)
        ensures
            *final(chips) == *old(chips),
            *final(mult) == *old(mult),
    {
    }

    /// Card-scored hook: applies [`on_score_step`] to the accumulator.
    pub fn on_score(&self, card: &Card, chips: &mut u64, mult: &mut u64)
        requires
            (*old(mult)) as int + 3 <= u64::MAX as int,
        ensures
            ((*final(chips)) as int, (*final(mult)) as int) == on_score_step(
                *self,
                *card,
                ((*old(chips)) as int, (*old(mult)) as int),
            ),
    {
        match self {
            Joker::Greedy => {
                if card.suit == Suit::Diamonds {
                    *mult = *mult + 3;
                }
            },
            Joker::Lusty => {
                if card.suit == Suit::Hearts {
                    *mult = *mult + 3;
                }
            },
            Joker::Wrathful => {
                if card.suit == Suit::Spades {
                    *mult = *mult + 3;
                }
            },
            Joker::Gluttonous => {
                if card.suit == Suit::Clubs {
                    *mult = *mult + 3;
                }
            },
            _ => {},
        }
    }

    /// End-of-round hook: applies [`end_round_step`] to the accumulator.
    /// The conditional jokers re-derive the hand category from the cards
    /// that actually scored.
    pub fn end_of_round(
        &self,
        chips: &mut u64,
        mult: &mut u64,
        cards: &Vec<Card>,
        scoring_card_indices: &Vec<usize>,
    )
        requires
            1 <= scoring_card_indices@.len() <= 5,
            forall|k: int|
                0 <= k < scoring_card_indices@.len() ==> #[trigger] scoring_card_indices@[k]
                    < cards@.len(),
            (*old(chips)) as int + 100 <= u64::MAX as int,
            (*old(mult)) as int + 12 <= u64::MAX as int,
        ensures
            ((*final(chips)) as int, (*final(mult)) as int) == end_round_step(
                *self,
                cards@,
                scoring_card_indices@,
                ((*old(chips)) as int, (*old(mult)) as int),
            ),
    {
        match self {
            Joker::Jimbo => {
                *mult = *mult + 4;
            },
            Joker::Jolly => {
                let cat = category_of_scoring(cards, scoring_card_indices);
                if category_contains_pair(cat) {
                    *mult = *mult + 8;
                }
            },
            Joker::Zany => {
                let cat = category_of_scoring(cards, scoring_card_indices);
                if category_contains_three(cat) {
                    *mult = *mult + 12;
                }
            },
            Joker::Mad => {
                let cat = category_of_scoring(cards, scoring_card_indices);
                if category_contains_two_pair(cat) {
                    *mult = *mult + 10;
                }
            },
            Joker::Crazy => {
                let cat = category_of_scoring(cards, scoring_card_indices);
                if category_contains_straight(cat) {
                    *mult = *mult + 12;
                }
            },
            Joker::Droll => {
                let cat = category_of_scoring(cards, scoring_card_indices);
                if category_contains_flush(cat) {
                    *mult = *mult + 10;
                }
            },
            Joker::Sly => {
                let cat = category_of_scoring(cards, scoring_card_indices);
                if category_contains_pair(cat) {
                    *chips = *chips + 50;
                }
            },
            Joker::Wily => {
                let cat = category_of_scoring(cards, scoring_card_indices);
                if category_contains_three(cat) {
                    *chips = *chips + 100;
                }
            },
            Joker::Clever => {
                let cat = category_of_scoring(cards, scoring_card_indices);
                if category_contains_two_pair(cat) {
                    *chips = *chips + 80;
                }
            },
            Joker::Devious => {
                let cat = category_of_scoring(cards, scoring_card_indices);
                if category_contains_straight(cat) {
                    *chips = *chips + 100;
                }
            },
            Joker::Crafty => {
                let cat = category_of_scoring(cards, scoring_card_indices);
                if category_contains_flush(cat) {
                    *chips = *chips + 80;
                }
            },
            _ => {},
        }
    }
}

/// Re-derives the category of the cards that actually scored, as the
/// conditional end-of-round jokers do.
fn category_of_scoring(cards: &Vec<Card>, scoring_card_indices: &Vec<usize>) -> (cat: PokerHand)
    requires
        1 <= scoring_card_indices@.len() <= 5,
        forall|k: int|
            0 <= k < scoring_card_indices@.len() ==> #[trigger] scoring_card_indices@[k]
                < cards@.len(),
    ensures
        cat == classify_cat(scoring_cards(cards@, scoring_card_indices@)),
{
    let n = scoring_card_indices.len();
    let mut sc: Vec<Card> = Vec::new();
    let mut k: usize = 0;
    while k < n
        invariant
            k <= n,
            n == scoring_card_indices@.len(),
            1 <= n <= 5,
            forall|j: int|
                0 <= j < n ==> #[trigger] scoring_card_indices@[j] < cards@.len(),
            sc@.len() == k,
            forall|j: int|
                0 <= j < k ==> #[trigger] sc@[j] == cards@[scoring_card_indices@[j] as int],
        decreases n - k,
    {
        sc.push(cards[scoring_card_indices[k]]);
        k = k + 1;
    }
    assert(sc@ =~= scoring_cards(cards@, scoring_card_indices@));
    let (cat, _) = determine_poker_hand(&sc);
    cat
}

/// Executable counterpart of [`contains_pair`].
fn category_contains_pair(h: PokerHand) -> (b: bool)
    ensures
        b == contains_pair(h),
{
    match h {
        PokerHand::Pair
        | PokerHand::TwoPair
        | PokerHand::ThreeOfAKind
        | PokerHand::FullHouse
        | PokerHand::FourOfAKind
        | PokerHand::FiveOfAKind
        | PokerHand::FlushHouse
        | PokerHand::FlushFive => true,
        _ => false,
    }
}

/// Executable counterpart of [`contains_three`].
fn category_contains_three(h: PokerHand) -> (b: bool)
    ensures
        b == contains_three(h),
{
    match h {
        PokerHand::ThreeOfAKind
        | PokerHand::FullHouse
        | PokerHand::FourOfAKind
        | PokerHand::FiveOfAKind
        | PokerHand::FlushHouse
        | PokerHand::FlushFive => true,
        _ => false,
    }
}

/// Executable counterpart of [`contains_two_pair`].
fn category_contains_two_pair(h: PokerHand) -> (b: bool)
    ensures
        b == contains_two_pair(h),
{
    match h {
        PokerHand::TwoPair | PokerHand::FullHouse | PokerHand::FlushHouse => true,
        _ => false,
    }
}

/// Executable counterpart of [`contains_straight`].
fn category_contains_straight(h: PokerHand) -> (b: bool)
    ensures
        b == contains_straight(h),
{
    match h {
        PokerHand::Straight | PokerHand::StraightFlush => true,
        _ => false,
    }
}

/// Executable counterpart of [`contains_flush`].
fn category_contains_flush(h: PokerHand) -> (b: bool)
    ensures
        b == contains_flush(h),
{
    match h {
        PokerHand::Flush | PokerHand::StraightFlush | PokerHand::FlushHouse
        | PokerHand::FlushFive => true,
        _ => false,
    }
}

/// The registry that resolves a joker's display name to its variant.
pub struct JokerFactory {}

impl JokerFactory {
    /// Resolves a display name. An unrecognized name resolves to the
    /// plain Joker: the registry never fails.
    pub fn create_joker(name: &str) -> (j: Joker)
        ensures
            j == joker_for_name(name@),
    {
        if str_eq(name, "Joker") {
            Joker::Jimbo
        } else if str_eq(name, "Greedy Joker") {
            Joker::Greedy
        } else if str_eq(name, "Lusty Joker") {
            Joker::Lusty
        } else if str_eq(name, "Wrathful Joker") {
            Joker::Wrathful
        } else if str_eq(name, "Gluttonous Joker") {
            Joker::Gluttonous
        } else if str_eq(name, "Jolly Joker") {
            Joker::Jolly
        } else if str_eq(name, "Zany Joker") {
            Joker::Zany
        } else if str_eq(name, "Mad Joker") {
            Joker::Mad
        } else if str_eq(name, "Crazy Joker") {
            Joker::Crazy
        } else if str_eq(name, "Droll Joker") {
            Joker::Droll
        } else if str_eq(name, "Sly Joker") {
            Joker::Sly
        } else if str_eq(name, "Wily Joker") {
            Joker::Wily
        } else if str_eq(name, "Clever Joker") {
            Joker::Clever
        } else if str_eq(name, "Devious Joker") {
            Joker::Devious
        } else if str_eq(name, "Crafty Joker") {
            Joker::Crafty
        } else {
            Joker::Jimbo
        }
    }
}

} // verus!
