//! Tests of the scoring engine: base values, face values, debuffs, and
//! joker hooks in held order.

use balatrust::blinds::{Blind, BossAbility, TheGoad};
use balatrust::cards::{Card, Rank, Suit};
use balatrust::hands::determine_poker_hand;
use balatrust::jokers::Joker;
use balatrust::scoring::score_hand;

fn card(suit: Suit, rank: Rank) -> Card {
    Card { suit, rank }
}

fn plain_blind() -> Blind {
    Blind {
        name: "Test Blind".to_string(),
        score: 300,
        description: String::new(),
        boss_ability: None,
    }
}

fn spade_debuff_blind() -> Blind {
    Blind {
        name: "Boss Blind - The Goad".to_string(),
        score: 600,
        description: "All Spade cards are debuffed".to_string(),
        boss_ability: Some(BossAbility::Goad(TheGoad)),
    }
}

fn pair_of_aces() -> Vec<Card> {
    vec![
        card(Suit::Spades, Rank::Ace),
        card(Suit::Diamonds, Rank::Ace),
        card(Suit::Clubs, Rank::Four),
        card(Suit::Hearts, Rank::Seven),
        card(Suit::Hearts, Rank::Nine),
    ]
}

#[test]
fn pair_of_aces_scores_32_chips_times_2() {
    let cards = pair_of_aces();
    let (hand, attr) = determine_poker_hand(&cards);
    let blind = plain_blind();
    let jokers: Vec<Joker> = Vec::new();
    let (chips, mult) = score_hand(&cards, &hand, &attr, &blind, &jokers);
    // Base 10 chips, 2 mult; both aces add 11 each.
    assert_eq!(chips, 32);
    assert_eq!(mult, 2);
}

#[test]
fn high_card_base_and_face_value() {
    let cards = vec![
        card(Suit::Clubs, Rank::Ace),
        card(Suit::Diamonds, Rank::Four),
        card(Suit::Hearts, Rank::Seven),
        card(Suit::Clubs, Rank::Eight),
        card(Suit::Diamonds, Rank::King),
    ];
    let (hand, attr) = determine_poker_hand(&cards);
    let blind = plain_blind();
    let jokers: Vec<Joker> = Vec::new();
    let (chips, mult) = score_hand(&cards, &hand, &attr, &blind, &jokers);
    // Base 5 chips, 1 mult; only the ace (11) scores.
    assert_eq!(chips, 16);
    assert_eq!(mult, 1);
}

#[test]
fn straight_flush_base_values() {
    let cards = vec![
        card(Suit::Hearts, Rank::Nine),
        card(Suit::Hearts, Rank::Ten),
        card(Suit::Hearts, Rank::Jack),
        card(Suit::Hearts, Rank::Queen),
        card(Suit::Hearts, Rank::King),
    ];
    let (hand, attr) = determine_poker_hand(&cards);
    let blind = plain_blind();
    let jokers: Vec<Joker> = Vec::new();
    let (chips, mult) = score_hand(&cards, &hand, &attr, &blind, &jokers);
    // Base 100 chips, 8 mult; faces 9 + 10 + 10 + 10 + 10.
    assert_eq!(chips, 149);
    assert_eq!(mult, 8);
}

#[test]
fn debuffed_spade_contributes_zero_chips() {
    let cards = pair_of_aces();
    let (hand, attr) = determine_poker_hand(&cards);
    let jokers: Vec<Joker> = Vec::new();
    let (chips, mult) = score_hand(&cards, &hand, &attr, &spade_debuff_blind(), &jokers);
    // The spade ace is debuffed: only the diamond ace adds 11.
    assert_eq!(chips, 21);
    assert_eq!(mult, 2);
}

#[test]
fn debuffed_card_triggers_no_per_card_hook() {
    let cards = pair_of_aces();
    let (hand, attr) = determine_poker_hand(&cards);
    // Wrathful grants +3 mult per scored spade.
    let jokers = vec![Joker::Wrathful];
    let (chips_debuffed, mult_debuffed) =
        score_hand(&cards, &hand, &attr, &spade_debuff_blind(), &jokers);
    assert_eq!(chips_debuffed, 21);
    assert_eq!(mult_debuffed, 2);

    // Without the debuff the spade ace scores and fires the hook.
    let (chips_plain, mult_plain) = score_hand(&cards, &hand, &attr, &plain_blind(), &jokers);
    assert_eq!(chips_plain, 32);
    assert_eq!(mult_plain, 5);
}

#[test]
fn suit_jokers_add_mult_per_scored_card() {
    let cards = vec![
        card(Suit::Diamonds, Rank::Ace),
        card(Suit::Diamonds, Rank::Ace),
        card(Suit::Clubs, Rank::Four),
        card(Suit::Hearts, Rank::Seven),
        card(Suit::Hearts, Rank::Nine),
    ];
    let (hand, attr) = determine_poker_hand(&cards);
    let jokers = vec![Joker::Greedy];
    let (chips, mult) = score_hand(&cards, &hand, &attr, &plain_blind(), &jokers);
    // Pair base (10, 2); two diamond aces: +11 chips and +3 mult each.
    assert_eq!(chips, 32);
    assert_eq!(mult, 8);
}

#[test]
fn jimbo_adds_four_mult_at_end_of_round() {
    let cards = pair_of_aces();
    let (hand, attr) = determine_poker_hand(&cards);
    let jokers = vec![Joker::Jimbo];
    let (chips, mult) = score_hand(&cards, &hand, &attr, &plain_blind(), &jokers);
    assert_eq!(chips, 32);
    assert_eq!(mult, 6);
}

#[test]
fn jolly_and_sly_react_to_a_pair_of_scoring_cards() {
    let cards = pair_of_aces();
    let (hand, attr) = determine_poker_hand(&cards);
    let jokers = vec![Joker::Jolly, Joker::Sly];
    let (chips, mult) = score_hand(&cards, &hand, &attr, &plain_blind(), &jokers);
    // The two scoring aces re-classify as a pair: +8 mult and +50 chips.
    assert_eq!(chips, 82);
    assert_eq!(mult, 10);
}

#[test]
fn zany_and_wily_react_to_three_of_a_kind() {
    let cards = vec![
        card(Suit::Spades, Rank::Two),
        card(Suit::Hearts, Rank::Two),
        card(Suit::Diamonds, Rank::Two),
        card(Suit::Spades, Rank::Six),
        card(Suit::Diamonds, Rank::Nine),
    ];
    let (hand, attr) = determine_poker_hand(&cards);
    let jokers = vec![Joker::Zany, Joker::Wily];
    let (chips, mult) = score_hand(&cards, &hand, &attr, &plain_blind(), &jokers);
    // Base (30, 3) plus 2+2+2 chips, then +100 chips and +12 mult.
    assert_eq!(chips, 136);
    assert_eq!(mult, 15);
}

#[test]
fn mad_and_clever_react_to_two_pair() {
    let cards = vec![
        card(Suit::Spades, Rank::Five),
        card(Suit::Hearts, Rank::Five),
        card(Suit::Spades, Rank::Eight),
        card(Suit::Diamonds, Rank::Eight),
        card(Suit::Clubs, Rank::Ten),
    ];
    let (hand, attr) = determine_poker_hand(&cards);
    let jokers = vec![Joker::Mad, Joker::Clever];
    let (chips, mult) = score_hand(&cards, &hand, &attr, &plain_blind(), &jokers);
    // Base (20, 2) plus 5+5+8+8 chips, then +80 chips and +10 mult.
    assert_eq!(chips, 126);
    assert_eq!(mult, 12);
}

#[test]
fn crazy_and_devious_react_to_a_straight() {
    let cards = vec![
        card(Suit::Clubs, Rank::Eight),
        card(Suit::Diamonds, Rank::Nine),
        card(Suit::Spades, Rank::Ten),
        card(Suit::Spades, Rank::Jack),
        card(Suit::Clubs, Rank::Queen),
    ];
    let (hand, attr) = determine_poker_hand(&cards);
    let jokers = vec![Joker::Crazy, Joker::Devious];
    let (chips, mult) = score_hand(&cards, &hand, &attr, &plain_blind(), &jokers);
    // Base (30, 4) plus 8+9+10+10+10 chips, then +100 chips and +12 mult.
    assert_eq!(chips, 177);
    assert_eq!(mult, 16);
}

#[test]
fn droll_and_crafty_react_to_a_flush() {
    let cards = vec![
        card(Suit::Clubs, Rank::Ace),
        card(Suit::Clubs, Rank::Four),
        card(Suit::Clubs, Rank::Seven),
        card(Suit::Clubs, Rank::Eight),
        card(Suit::Clubs, Rank::Ten),
    ];
    let (hand, attr) = determine_poker_hand(&cards);
    let jokers = vec![Joker::Droll, Joker::Crafty];
    let (chips, mult) = score_hand(&cards, &hand, &attr, &plain_blind(), &jokers);
    // Base (35, 4) plus 11+4+7+8+10 chips, then +80 chips and +10 mult.
    assert_eq!(chips, 155);
    assert_eq!(mult, 14);
}

#[test]
fn conditional_joker_stays_silent_on_wrong_family() {
    let cards = pair_of_aces();
    let (hand, attr) = determine_poker_hand(&cards);
    // A pair contains no straight and no flush.
    let jokers = vec![Joker::Crazy, Joker::Crafty];
    let (chips, mult) = score_hand(&cards, &hand, &attr, &plain_blind(), &jokers);
    assert_eq!(chips, 32);
    assert_eq!(mult, 2);
}

#[test]
fn add_only_jokers_commute_in_end_of_round_order() {
    let cards = pair_of_aces();
    let (hand, attr) = determine_poker_hand(&cards);
    let blind = plain_blind();
    let one_way = vec![Joker::Jimbo, Joker::Jolly];
    let other_way = vec![Joker::Jolly, Joker::Jimbo];
    let a = score_hand(&cards, &hand, &attr, &blind, &one_way);
    let b = score_hand(&cards, &hand, &attr, &blind, &other_way);
    assert_eq!(a, b);
    assert_eq!(a, (32, 14));
}

#[test]
fn mixed_chip_and_mult_jokers_commute_too() {
    // Every base-set hook adds an accumulator-independent amount, so
    // even a chips-adder and a mult-adder can be swapped freely.
    let cards = pair_of_aces();
    let (hand, attr) = determine_poker_hand(&cards);
    let blind = plain_blind();
    let one_way = vec![Joker::Sly, Joker::Jimbo];
    let other_way = vec![Joker::Jimbo, Joker::Sly];
    let a = score_hand(&cards, &hand, &attr, &blind, &one_way);
    let b = score_hand(&cards, &hand, &attr, &blind, &other_way);
    assert_eq!(a, b);
    assert_eq!(a, (82, 6));
}
