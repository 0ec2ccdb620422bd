//! Tests of the hand classifier: categories, precedence, and attribution.

use balatrust::cards::{Card, Rank, Suit};
use balatrust::hands::{determine_poker_hand, PokerHand};

fn card(suit: Suit, rank: Rank) -> Card {
    Card { suit, rank }
}

#[test]
fn straight_flush_all_suits_match_consecutive_run() {
    let cards = vec![
        card(Suit::Hearts, Rank::Nine),
        card(Suit::Hearts, Rank::Ten),
        card(Suit::Hearts, Rank::Jack),
        card(Suit::Hearts, Rank::Queen),
        card(Suit::Hearts, Rank::King),
    ];
    let (hand, attr) = determine_poker_hand(&cards);
    assert_eq!(hand, PokerHand::StraightFlush);
    assert_eq!(attr, vec![0, 1, 2, 3, 4]);
}

#[test]
fn straight_flush_wheel() {
    let cards = vec![
        card(Suit::Clubs, Rank::Ace),
        card(Suit::Clubs, Rank::Two),
        card(Suit::Clubs, Rank::Three),
        card(Suit::Clubs, Rank::Four),
        card(Suit::Clubs, Rank::Five),
    ];
    let (hand, attr) = determine_poker_hand(&cards);
    assert_eq!(hand, PokerHand::StraightFlush);
    assert_eq!(attr, vec![0, 1, 2, 3, 4]);
}

#[test]
fn flush_five_identical_cards() {
    let cards = vec![
        card(Suit::Clubs, Rank::Seven),
        card(Suit::Clubs, Rank::Seven),
        card(Suit::Clubs, Rank::Seven),
        card(Suit::Clubs, Rank::Seven),
        card(Suit::Clubs, Rank::Seven),
    ];
    let (hand, attr) = determine_poker_hand(&cards);
    assert_eq!(hand, PokerHand::FlushFive);
    assert_eq!(attr, vec![0, 1, 2, 3, 4]);
}

#[test]
fn full_house_queens_over_sevens() {
    let cards = vec![
        card(Suit::Spades, Rank::Queen),
        card(Suit::Clubs, Rank::Queen),
        card(Suit::Hearts, Rank::Queen),
        card(Suit::Hearts, Rank::Seven),
        card(Suit::Diamonds, Rank::Seven),
    ];
    let (hand, attr) = determine_poker_hand(&cards);
    assert_eq!(hand, PokerHand::FullHouse);
    assert_eq!(attr, vec![0, 1, 2, 3, 4]);
}

#[test]
fn flush_house_beats_flush_and_full_house() {
    let cards = vec![
        card(Suit::Spades, Rank::Five),
        card(Suit::Spades, Rank::Five),
        card(Suit::Spades, Rank::Five),
        card(Suit::Spades, Rank::Eight),
        card(Suit::Spades, Rank::Eight),
    ];
    let (hand, attr) = determine_poker_hand(&cards);
    assert_eq!(hand, PokerHand::FlushHouse);
    assert_eq!(attr, vec![0, 1, 2, 3, 4]);
}

#[test]
fn five_of_a_kind_mixed_suits() {
    let cards = vec![
        card(Suit::Clubs, Rank::Seven),
        card(Suit::Hearts, Rank::Seven),
        card(Suit::Spades, Rank::Seven),
        card(Suit::Clubs, Rank::Seven),
        card(Suit::Diamonds, Rank::Seven),
    ];
    let (hand, attr) = determine_poker_hand(&cards);
    assert_eq!(hand, PokerHand::FiveOfAKind);
    assert_eq!(attr, vec![0, 1, 2, 3, 4]);
}

#[test]
fn four_of_a_kind_attributes_only_the_four() {
    let cards = vec![
        card(Suit::Clubs, Rank::Six),
        card(Suit::Hearts, Rank::Six),
        card(Suit::Spades, Rank::Six),
        card(Suit::Diamonds, Rank::Six),
        card(Suit::Clubs, Rank::Eight),
    ];
    let (hand, attr) = determine_poker_hand(&cards);
    assert_eq!(hand, PokerHand::FourOfAKind);
    assert_eq!(attr, vec![0, 1, 2, 3]);
}

#[test]
fn four_of_a_kind_with_only_four_cards_played() {
    let cards = vec![
        card(Suit::Clubs, Rank::Ace),
        card(Suit::Hearts, Rank::Ace),
        card(Suit::Spades, Rank::Ace),
        card(Suit::Diamonds, Rank::Ace),
    ];
    let (hand, attr) = determine_poker_hand(&cards);
    assert_eq!(hand, PokerHand::FourOfAKind);
    assert_eq!(attr, vec![0, 1, 2, 3]);
}

#[test]
fn flush_without_straight() {
    let cards = vec![
        card(Suit::Clubs, Rank::Ace),
        card(Suit::Clubs, Rank::Four),
        card(Suit::Clubs, Rank::Seven),
        card(Suit::Clubs, Rank::Eight),
        card(Suit::Clubs, Rank::Ten),
    ];
    let (hand, attr) = determine_poker_hand(&cards);
    assert_eq!(hand, PokerHand::Flush);
    assert_eq!(attr, vec![0, 1, 2, 3, 4]);
}

#[test]
fn straight_mixed_suits() {
    let cards = vec![
        card(Suit::Clubs, Rank::Eight),
        card(Suit::Diamonds, Rank::Nine),
        card(Suit::Spades, Rank::Ten),
        card(Suit::Spades, Rank::Jack),
        card(Suit::Clubs, Rank::Queen),
    ];
    let (hand, attr) = determine_poker_hand(&cards);
    assert_eq!(hand, PokerHand::Straight);
    assert_eq!(attr, vec![0, 1, 2, 3, 4]);
}

#[test]
fn straight_unsorted_input_still_detected() {
    let cards = vec![
        card(Suit::Clubs, Rank::Queen),
        card(Suit::Diamonds, Rank::Nine),
        card(Suit::Spades, Rank::Jack),
        card(Suit::Spades, Rank::Eight),
        card(Suit::Clubs, Rank::Ten),
    ];
    let (hand, _) = determine_poker_hand(&cards);
    assert_eq!(hand, PokerHand::Straight);
}

#[test]
fn wheel_mixed_suits_is_straight() {
    let cards = vec![
        card(Suit::Clubs, Rank::Ace),
        card(Suit::Diamonds, Rank::Two),
        card(Suit::Spades, Rank::Three),
        card(Suit::Hearts, Rank::Four),
        card(Suit::Clubs, Rank::Five),
    ];
    let (hand, _) = determine_poker_hand(&cards);
    assert_eq!(hand, PokerHand::Straight);
}

#[test]
fn ace_high_run_short_of_straight() {
    // J,Q,K,A plus a low card: not consecutive, so no straight.
    let cards = vec![
        card(Suit::Clubs, Rank::Jack),
        card(Suit::Diamonds, Rank::Queen),
        card(Suit::Spades, Rank::King),
        card(Suit::Hearts, Rank::Ace),
        card(Suit::Clubs, Rank::Two),
    ];
    let (hand, attr) = determine_poker_hand(&cards);
    assert_eq!(hand, PokerHand::HighCard);
    assert_eq!(attr, vec![3]);
}

#[test]
fn three_of_a_kind_attribution() {
    let cards = vec![
        card(Suit::Spades, Rank::Two),
        card(Suit::Hearts, Rank::Two),
        card(Suit::Diamonds, Rank::Two),
        card(Suit::Spades, Rank::Six),
        card(Suit::Diamonds, Rank::Nine),
    ];
    let (hand, attr) = determine_poker_hand(&cards);
    assert_eq!(hand, PokerHand::ThreeOfAKind);
    assert_eq!(attr, vec![0, 1, 2]);
}

#[test]
fn two_pair_attributes_both_pairs() {
    let cards = vec![
        card(Suit::Spades, Rank::Five),
        card(Suit::Hearts, Rank::Five),
        card(Suit::Spades, Rank::Eight),
        card(Suit::Diamonds, Rank::Eight),
        card(Suit::Clubs, Rank::Ten),
    ];
    let (hand, attr) = determine_poker_hand(&cards);
    assert_eq!(hand, PokerHand::TwoPair);
    assert_eq!(attr, vec![0, 1, 2, 3]);
}

#[test]
fn pair_of_aces_attributes_the_two_aces() {
    let cards = vec![
        card(Suit::Spades, Rank::Ace),
        card(Suit::Diamonds, Rank::Ace),
        card(Suit::Clubs, Rank::Four),
        card(Suit::Hearts, Rank::Seven),
        card(Suit::Hearts, Rank::Nine),
    ];
    let (hand, attr) = determine_poker_hand(&cards);
    assert_eq!(hand, PokerHand::Pair);
    assert_eq!(attr, vec![0, 1]);
}

#[test]
fn high_card_picks_the_single_highest() {
    let cards = vec![
        card(Suit::Clubs, Rank::King),
        card(Suit::Diamonds, Rank::Four),
        card(Suit::Hearts, Rank::Seven),
        card(Suit::Spades, Rank::Ace),
        card(Suit::Diamonds, Rank::Nine),
    ];
    let (hand, attr) = determine_poker_hand(&cards);
    assert_eq!(hand, PokerHand::HighCard);
    assert_eq!(attr, vec![3]);
}

#[test]
fn single_card_is_high_card() {
    let cards = vec![card(Suit::Hearts, Rank::Two)];
    let (hand, attr) = determine_poker_hand(&cards);
    assert_eq!(hand, PokerHand::HighCard);
    assert_eq!(attr, vec![0]);
}

#[test]
fn short_hand_cannot_be_flush_or_straight() {
    // Three hearts in a row: too few cards for either category.
    let cards = vec![
        card(Suit::Hearts, Rank::Four),
        card(Suit::Hearts, Rank::Five),
        card(Suit::Hearts, Rank::Six),
    ];
    let (hand, attr) = determine_poker_hand(&cards);
    assert_eq!(hand, PokerHand::HighCard);
    assert_eq!(attr, vec![2]);
}

#[test]
fn pair_in_a_two_card_hand() {
    let cards = vec![card(Suit::Hearts, Rank::Jack), card(Suit::Clubs, Rank::Jack)];
    let (hand, attr) = determine_poker_hand(&cards);
    assert_eq!(hand, PokerHand::Pair);
    assert_eq!(attr, vec![0, 1]);
}

#[test]
fn classify_twice_yields_identical_output() {
    let cards = vec![
        card(Suit::Spades, Rank::Queen),
        card(Suit::Clubs, Rank::Queen),
        card(Suit::Hearts, Rank::Queen),
        card(Suit::Hearts, Rank::Seven),
        card(Suit::Diamonds, Rank::Seven),
    ];
    let (hand1, attr1) = determine_poker_hand(&cards);
    let (hand2, attr2) = determine_poker_hand(&cards);
    assert_eq!(hand1, hand2);
    assert_eq!(attr1, attr2);
}

#[test]
fn category_names() {
    assert_eq!(PokerHand::HighCard.name(), "High Card");
    assert_eq!(PokerHand::StraightFlush.name(), "Straight Flush");
    assert_eq!(PokerHand::FlushFive.name(), "Flush Five");
}
