//! Tests of the player state, the hand and deck management, the joker
//! ordering, and the round manager's turn decisions.

use balatrust::blinds::{Blind, BlindType, BossAbility, TheGoad};
use balatrust::cards::{standard_deck, Card, Rank, Suit};
use balatrust::game::{GameManager, Player, Round, SortMethod, TurnStatus};
use balatrust::jokers::Joker;

fn card(suit: Suit, rank: Rank) -> Card {
    Card { suit, rank }
}

#[test]
fn standard_deck_has_52_distinct_cards() {
    let deck = standard_deck();
    assert_eq!(deck.len(), 52);
    for i in 0..deck.len() {
        for j in 0..i {
            assert_ne!(deck[i], deck[j]);
        }
    }
    assert_eq!(deck[0], card(Suit::Spades, Rank::Two));
    assert_eq!(deck[12], card(Suit::Spades, Rank::Ace));
    assert_eq!(deck[51], card(Suit::Diamonds, Rank::Ace));
}

#[test]
fn new_player_defaults() {
    let p = Player::new();
    assert_eq!(p.money, 4);
    assert_eq!(p.deck.len(), 52);
    assert_eq!(p.jokers.len(), 0);
    assert_eq!(p.hands, 4);
    assert_eq!(p.discards, 3);
    assert_eq!(p.max_cards_in_hand, 8);
    assert_eq!(p.max_jokers, 5);
    assert_eq!(p.sort_method, SortMethod::ByRank);
}

#[test]
fn start_round_deals_a_full_sorted_hand() {
    let mut p = Player::new();
    p.start_round();
    assert_eq!(p.cards_in_hand.len(), 8);
    assert_eq!(p.current_deck.len(), 44);
    assert_eq!(p.hands, p.max_hands);
    assert_eq!(p.discards, p.max_discards);
    for w in p.cards_in_hand.windows(2) {
        assert!(rank_value(w[0].rank) <= rank_value(w[1].rank));
    }
}

fn rank_value(r: Rank) -> u8 {
    balatrust::cards::rank_order_value(r)
}

#[test]
fn start_round_keeps_every_deck_card() {
    // Shuffling and dealing only rearrange: hand and round deck together
    // still hold exactly the 52 cards of the full deck.
    let mut p = Player::new();
    p.start_round();
    let mut together: Vec<Card> = Vec::new();
    together.extend_from_slice(&p.cards_in_hand);
    together.extend_from_slice(&p.current_deck);
    let key = |c: &Card| {
        (
            balatrust::cards::suit_order_value(c.suit),
            balatrust::cards::rank_order_value(c.rank),
        )
    };
    together.sort_by_key(key);
    let mut full = standard_deck();
    full.sort_by_key(key);
    assert_eq!(together, full);
}

#[test]
fn deal_hand_stops_when_deck_is_empty() {
    let mut p = Player::new();
    p.current_deck = vec![card(Suit::Hearts, Rank::Two), card(Suit::Clubs, Rank::Ace)];
    p.cards_in_hand = Vec::new();
    p.deal_hand();
    assert_eq!(p.cards_in_hand.len(), 2);
    assert_eq!(p.current_deck.len(), 0);
}

#[test]
fn discard_cards_removes_selected_and_refills() {
    let mut p = Player::new();
    p.cards_in_hand = vec![
        card(Suit::Hearts, Rank::Two),
        card(Suit::Clubs, Rank::Five),
        card(Suit::Spades, Rank::Nine),
    ];
    p.current_deck = Vec::new();
    p.max_cards_in_hand = 3;
    p.discard_cards(&vec![0, 2]);
    assert_eq!(p.cards_in_hand.len(), 1);
    assert_eq!(p.cards_in_hand[0], card(Suit::Clubs, Rank::Five));
}

#[test]
fn sort_by_suit_groups_suits_in_display_order() {
    let mut p = Player::new();
    p.cards_in_hand = vec![
        card(Suit::Diamonds, Rank::Two),
        card(Suit::Spades, Rank::Ace),
        card(Suit::Hearts, Rank::Three),
        card(Suit::Spades, Rank::Two),
    ];
    p.sort_by_suit();
    assert_eq!(
        p.cards_in_hand,
        vec![
            card(Suit::Spades, Rank::Two),
            card(Suit::Spades, Rank::Ace),
            card(Suit::Hearts, Rank::Three),
            card(Suit::Diamonds, Rank::Two),
        ]
    );
}

#[test]
fn toggle_sort_method_flips_and_resorts() {
    let mut p = Player::new();
    p.cards_in_hand = vec![
        card(Suit::Diamonds, Rank::Two),
        card(Suit::Spades, Rank::Ace),
    ];
    assert_eq!(p.sort_method, SortMethod::ByRank);
    p.toggle_sort_method();
    assert_eq!(p.sort_method, SortMethod::BySuit);
    assert_eq!(p.cards_in_hand[0], card(Suit::Spades, Rank::Ace));
    p.toggle_sort_method();
    assert_eq!(p.sort_method, SortMethod::ByRank);
    assert_eq!(p.cards_in_hand[0], card(Suit::Diamonds, Rank::Two));
}

#[test]
fn move_joker_repositions_and_shifts() {
    let mut p = Player::new();
    p.add_joker(Joker::Jimbo);
    p.add_joker(Joker::Greedy);
    p.add_joker(Joker::Sly);
    assert!(p.move_joker(&vec![2, 0]));
    assert_eq!(p.jokers, vec![Joker::Sly, Joker::Jimbo, Joker::Greedy]);
    assert!(p.move_joker(&vec![0, 2]));
    assert_eq!(p.jokers, vec![Joker::Jimbo, Joker::Greedy, Joker::Sly]);
}

#[test]
fn move_joker_rejects_bad_positions() {
    let mut p = Player::new();
    p.add_joker(Joker::Jimbo);
    assert!(!p.move_joker(&vec![0]));
    assert!(!p.move_joker(&vec![0, 1]));
    assert!(!p.move_joker(&vec![1, 0]));
    assert_eq!(p.jokers, vec![Joker::Jimbo]);
}

#[test]
fn replace_joker_swaps_in_place() {
    let mut p = Player::new();
    p.add_joker(Joker::Jimbo);
    p.add_joker(Joker::Greedy);
    p.replace_joker(0, Joker::Crafty);
    assert_eq!(p.jokers, vec![Joker::Crafty, Joker::Greedy]);
}

#[test]
fn can_add_joker_respects_maximum() {
    let mut p = Player::new();
    for _ in 0..5 {
        assert!(p.can_add_joker());
        p.add_joker(Joker::Jimbo);
    }
    assert!(!p.can_add_joker());
}

fn fixed_game(hand: Vec<Card>, target: u64) -> GameManager {
    let mut player = Player::new();
    player.cards_in_hand = hand;
    player.current_deck = Vec::new();
    GameManager {
        ante: 1,
        current_blind: BlindType::Small,
        current_round: Round {
            blind: Blind {
                name: "Small Blind".to_string(),
                score: target,
                description: String::new(),
                boss_ability: None,
            },
            score: 0,
        },
        player,
    }
}

#[test]
fn game_manager_new_starts_at_ante_one() {
    let g = GameManager::new(Player::new());
    assert_eq!(g.ante, 1);
    assert_eq!(g.current_blind, BlindType::Small);
    assert_eq!(g.current_round.score, 0);
    assert_eq!(g.current_round.blind.score, 300);
    assert_eq!(g.player.cards_in_hand.len(), 8);
}

#[test]
fn next_round_walks_small_big_boss_and_raises_the_ante() {
    let mut g = GameManager::new(Player::new());
    g.next_round();
    assert_eq!(g.current_blind, BlindType::Big);
    assert_eq!(g.ante, 1);
    assert_eq!(g.current_round.blind.score, 450);
    g.next_round();
    assert_eq!(g.current_blind, BlindType::Boss);
    assert_eq!(g.ante, 1);
    assert_eq!(g.current_round.blind.score, 600);
    assert!(g.current_round.blind.boss_ability.is_some());
    g.next_round();
    assert_eq!(g.current_blind, BlindType::Small);
    assert_eq!(g.ante, 2);
    assert_eq!(g.current_round.blind.score, 800);
}

#[test]
fn selection_valid_checks_count_order_and_range() {
    let g = fixed_game(
        vec![
            card(Suit::Hearts, Rank::Two),
            card(Suit::Clubs, Rank::Five),
            card(Suit::Spades, Rank::Nine),
        ],
        300,
    );
    assert!(g.selection_valid(&vec![0]));
    assert!(g.selection_valid(&vec![0, 2]));
    assert!(!g.selection_valid(&vec![]));
    assert!(!g.selection_valid(&vec![0, 1, 2, 0, 1, 2]));
    assert!(!g.selection_valid(&vec![2, 0]));
    assert!(!g.selection_valid(&vec![1, 1]));
    assert!(!g.selection_valid(&vec![0, 3]));
}

#[test]
fn play_selected_scores_and_spends_a_hand() {
    let mut g = fixed_game(
        vec![
            card(Suit::Spades, Rank::Ace),
            card(Suit::Diamonds, Rank::Ace),
            card(Suit::Clubs, Rank::Four),
            card(Suit::Hearts, Rank::Seven),
            card(Suit::Hearts, Rank::Nine),
        ],
        300,
    );
    let st = g.play_selected(&vec![0, 1, 2, 3, 4]);
    // A pair of aces: 32 chips x 2 mult = 64, short of 300.
    assert_eq!(g.current_round.score, 64);
    assert_eq!(g.player.hands, 3);
    assert_eq!(st, TurnStatus::Continuing);
    assert_eq!(g.player.cards_in_hand.len(), 0);
}

#[test]
fn play_selected_wins_when_target_reached() {
    let mut g = fixed_game(
        vec![
            card(Suit::Hearts, Rank::Nine),
            card(Suit::Hearts, Rank::Ten),
            card(Suit::Hearts, Rank::Jack),
            card(Suit::Hearts, Rank::Queen),
            card(Suit::Hearts, Rank::King),
        ],
        300,
    );
    let st = g.play_selected(&vec![0, 1, 2, 3, 4]);
    // A straight flush: 149 chips x 8 mult = 1192.
    assert_eq!(g.current_round.score, 1192);
    assert_eq!(st, TurnStatus::Won);
}

#[test]
fn play_selected_loses_on_the_last_hand() {
    let mut g = fixed_game(vec![card(Suit::Hearts, Rank::Two)], 1_000_000);
    g.player.hands = 1;
    let st = g.play_selected(&vec![0]);
    assert_eq!(st, TurnStatus::Lost);
    assert_eq!(g.player.hands, 0);
}

#[test]
fn play_selected_consults_the_boss_debuff() {
    let mut g = fixed_game(
        vec![
            card(Suit::Spades, Rank::Ace),
            card(Suit::Diamonds, Rank::Ace),
        ],
        300,
    );
    g.current_round.blind.boss_ability = Some(BossAbility::Goad(TheGoad));
    let st = g.play_selected(&vec![0, 1]);
    // The spade ace scores zero: (10 + 11) x 2 = 42.
    assert_eq!(g.current_round.score, 42);
    assert_eq!(st, TurnStatus::Continuing);
}

#[test]
fn discard_selected_spends_a_discard() {
    let mut g = fixed_game(
        vec![
            card(Suit::Hearts, Rank::Two),
            card(Suit::Clubs, Rank::Five),
            card(Suit::Spades, Rank::Nine),
        ],
        300,
    );
    g.discard_selected(&vec![1]);
    assert_eq!(g.player.discards, 2);
    assert_eq!(g.player.hands, 4);
    assert_eq!(
        g.player.cards_in_hand,
        vec![card(Suit::Hearts, Rank::Two), card(Suit::Spades, Rank::Nine)]
    );
}

#[test]
fn joker_order_changes_nothing_for_add_only_abilities() {
    let hand = vec![
        card(Suit::Spades, Rank::Ace),
        card(Suit::Diamonds, Rank::Ace),
    ];
    let mut g1 = fixed_game(hand.clone(), 300);
    g1.player.add_joker(Joker::Jimbo);
    g1.player.add_joker(Joker::Sly);
    g1.play_selected(&vec![0, 1]);

    let mut g2 = fixed_game(hand, 300);
    g2.player.add_joker(Joker::Sly);
    g2.player.add_joker(Joker::Jimbo);
    g2.play_selected(&vec![0, 1]);

    assert_eq!(g1.current_round.score, g2.current_round.score);
}
