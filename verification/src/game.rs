//! The player's run state and the round manager: hand and deck
//! management, the ordered and repositionable joker collection, round
//! progression, and the turn decisions of playing or discarding a
//! selection of cards.

use vstd::prelude::*;

verus! {

use crate::blinds::{Blind, BlindType, blind_score, blind_type_name, boss_name, boss_description};
use crate::cards::{Card, rank_order, suit_order, standard_deck};
use crate::hands::{PokerHand, classify_cat, classify_attr, determine_poker_hand, lemma_attr_valid,
    strictly_increasing};
use crate::jokers::{Joker, scoring_cards};
use crate::scoring::{hand_score, score_hand};
use vstd::multiset::Multiset;

/// The two orderings the player can keep the hand in.
#[derive(Clone, Copy, Debug, PartialEq, Eq, Structural)]
pub enum SortMethod {
    ByRank,
    BySuit,
}

/// Sort key of a card under a method: its rank order alone, or its suit's
/// position with the rank order breaking ties within a suit.
pub open spec fn sort_key(m: SortMethod, c: Card) -> int {
    match m {
        SortMethod::ByRank => rank_order(c.rank),
        SortMethod::BySuit => 15 * suit_order(c.suit) + rank_order(c.rank),
    }
}

/// Executable counterpart of [`sort_key`].
fn card_sort_key(m: SortMethod, c: Card) -> (k: u8)
    ensures
        k as int == sort_key(m, c),
{
    match m {
        SortMethod::ByRank => crate::cards::rank_order_value(c.rank),
        SortMethod::BySuit => 15 * crate::cards::suit_order_value(c.suit)
            + crate::cards::rank_order_value(c.rank),
    }
}

/// The cards are in ascending key order for the method.
pub open spec fn sorted_by(m: SortMethod, s: Seq<Card>) -> bool {
    forall|i: int, j: int|
        0 <= i < j < s.len() ==> sort_key(m, #[trigger] s[i]) <= sort_key(m, #[trigger] s[j])
}

/// Concatenating sequences adds their multisets.
proof fn lemma_to_multiset_concat(a: Seq<Card>, b: Seq<Card>)
    ensures
        (a + b).to_multiset() == a.to_multiset().add(b.to_multiset()),
    decreases b.len(),
{
    broadcast use vstd::seq_lib::group_to_multiset_ensures;

    if b.len() == 0 {
        assert(a + b =~= a);
        assert(b.to_multiset() =~= Multiset::empty());
        assert((a + b).to_multiset() =~= a.to_multiset().add(b.to_multiset()));
    } else {
        lemma_to_multiset_concat(a, b.drop_last());
        assert((a + b).drop_last() =~= a + b.drop_last());
        assert(a + b =~= (a + b.drop_last()).push(b.last()));
        assert(b =~= b.drop_last().push(b.last()));
        assert((a + b).to_multiset() =~= a.to_multiset().add(b.to_multiset()));
    }
}

/// Inserts a card into a sorted hand, keeping it sorted: the card goes
/// before the first strictly greater key.
fn insert_sorted(method: SortMethod, out: &mut Vec<Card>, c: Card)
    requires
        sorted_by(method, old(out)@),
    ensures
        sorted_by(method, final(out)@),
        final(out)@.to_multiset() == old(out)@.to_multiset().insert(c),
        final(out)@.len() == old(out)@.len() + 1,
{
    broadcast use vstd::seq_lib::group_to_multiset_ensures;

    let n = out.len();
    let key = card_sort_key(method, c);
    let mut pos: usize = 0;
    while pos < n && card_sort_key(method, out[pos]) <= key
        invariant
            pos <= n,
            n == out@.len(),
            out@ == old(out)@,
            key as int == sort_key(method, c),
            sorted_by(method, out@),
            forall|k: int| 0 <= k < pos ==> sort_key(method, #[trigger] out@[k]) <= key as int,
        decreases n - pos,
    {
        pos = pos + 1;
    }
    out.insert(pos, c);
    assert forall|i: int, j: int| 0 <= i < j < out@.len() implies sort_key(method, #[trigger] out@[i])
        <= sort_key(method, #[trigger] out@[j]) by {
        old(out)@.insert_ensures(pos as int, c);
        assert(forall|k: int| 0 <= k < pos ==> out@[k] == old(out)@[k]);
        assert(forall|k: int| pos < k < out@.len() ==> out@[k] == old(out)@[k - 1]);
        assert(out@[pos as int] == c);
    }
}

/// Returns the hand rebuilt in ascending key order for the method: the
/// same cards (as a multiset), sorted.
fn sort_cards_by(method: SortMethod, v: &Vec<Card>) -> (out: Vec<Card>)
    ensures
        sorted_by(method, out@),
        out@.to_multiset() == v@.to_multiset(),
        out@.len() == v@.len(),
{
    broadcast use vstd::seq_lib::group_to_multiset_ensures;

    let n = v.len();
    let mut out: Vec<Card> = Vec::new();
    let mut i: usize = 0;
    while i < n
        invariant
            i <= n,
            n == v@.len(),
            sorted_by(method, out@),
            out@.to_multiset() == v@.take(i as int).to_multiset(),
            out@.len() == i,
        decreases n - i,
    {
        proof {
            assert(v@.take(i + 1) =~= v@.take(i as int).push(v@[i as int]));
            vstd::seq_lib::to_multiset_build(v@.take(i as int), v@[i as int]);
        }
        insert_sorted(method, &mut out, v[i]);
        i = i + 1;
    }
    proof {
        assert(v@.take(n as int) =~= v@);
    }
    out
}

/// Relies on rand's SliceRandom::shuffle: an in-place Fisher-Yates
/// permutation of the slice — the multiset of elements is unchanged.
#[verifier::external_body]
fn shuffle_cards(v: &mut Vec<Card>)
    ensures
        final(v)@.to_multiset() == old(v)@.to_multiset(),
        final(v)@.len() == old(v)@.len(),
{
    rand::seq::SliceRandom::shuffle(v.as_mut_slice(), &mut rand::thread_rng());
}

/// Number of cards dealt to refill a hand of `hand_len` cards up to
/// `max` from a deck of `deck_len` cards.
pub open spec fn refill_count(hand_len: int, deck_len: int, max: int) -> int {
    if hand_len >= max {
        0
    } else if deck_len < max - hand_len {
        deck_len
    } else {
        max - hand_len
    }
}

/// The hand after removing the cards at the given ascending positions.
pub open spec fn remove_positions(hand: Seq<Card>, indices: Seq<usize>) -> Seq<Card>
    decreases indices.len(),
{
    if indices.len() == 0 {
        hand
    } else {
        remove_positions(hand.remove(indices.last() as int), indices.drop_last())
    }
}

/// The player's run state: bankroll, full deck, held jokers in their
/// significant order, the cards of the current round, the per-round
/// counters, the configured limits, and the preferred hand ordering.
pub struct Player {
    pub money: i32,
    pub deck: Vec<Card>,
    pub jokers: Vec<Joker>,
    pub current_deck: Vec<Card>,
    pub cards_in_hand: Vec<Card>,
    pub hands: u8,
    pub discards: u8,
    pub max_cards_in_hand: u8,
    pub max_discards: u8,
    pub max_hands: u8,
    pub max_jokers: u8,
    pub sort_method: SortMethod,
}

impl Player {
    /// The player's invariant: never more jokers than the configured
    /// maximum, and the per-round counters never above their maxima.
    pub open spec fn wf(self) -> bool {
        &&& self.jokers@.len() <= self.max_jokers as int
        &&& self.hands <= self.max_hands
        &&& self.discards <= self.max_discards
    }

    /// A fresh player at the start of a run: $4, the standard 52-card
    /// deck, no jokers, and the default limits.
    pub fn new() -> (p: Player)
        ensures
            p.wf(),
            p.money == 4,
            p.deck@ == crate::cards::standard_deck_seq(),
            p.jokers@.len() == 0,
            p.current_deck@.len() == 0,
            p.cards_in_hand@.len() == 0,
            p.hands == 4,
            p.discards == 3,
            p.max_cards_in_hand == 8,
            p.max_discards == 3,
            p.max_hands == 4,
            p.max_jokers == 5,
            p.sort_method == SortMethod::ByRank,
    {
        Player {
            money: 4,
            deck: standard_deck(),
            jokers: Vec::new(),
            current_deck: Vec::new(),
            cards_in_hand: Vec::new(),
            hands: 4,
            discards: 3,
            max_cards_in_hand: 8,
            max_discards: 3,
            max_hands: 4,
            max_jokers: 5,
            sort_method: SortMethod::ByRank,
        }
    }

    /// Sorts the hand by the currently selected method.
    pub fn sort_cards_in_hand(&mut self)
        ensures
            sorted_by(old(self).sort_method, final(self).cards_in_hand@),
            final(self).cards_in_hand@.to_multiset() == old(self).cards_in_hand@.to_multiset(),
            final(self).cards_in_hand@.len() == old(self).cards_in_hand@.len(),
            *final(self) == (Player { cards_in_hand: final(self).cards_in_hand, ..*old(self) }),
    {
        let sorted = sort_cards_by(self.sort_method, &self.cards_in_hand);
        self.cards_in_hand = sorted;
    }

    /// Sorts the hand by rank.
    pub fn sort_by_rank(&mut self)
        ensures
            sorted_by(SortMethod::ByRank, final(self).cards_in_hand@),
            final(self).cards_in_hand@.to_multiset() == old(self).cards_in_hand@.to_multiset(),
            *final(self) == (Player { cards_in_hand: final(self).cards_in_hand, ..*old(self) }),
    {
        let sorted = sort_cards_by(SortMethod::ByRank, &self.cards_in_hand);
        self.cards_in_hand = sorted;
    }

    /// Sorts the hand by suit, and by rank within each suit.
    pub fn sort_by_suit(&mut self)
        ensures
            sorted_by(SortMethod::BySuit, final(self).cards_in_hand@),
            final(self).cards_in_hand@.to_multiset() == old(self).cards_in_hand@.to_multiset(),
            *final(self) == (Player { cards_in_hand: final(self).cards_in_hand, ..*old(self) }),
    {
        let sorted = sort_cards_by(SortMethod::BySuit, &self.cards_in_hand);
        self.cards_in_hand = sorted;
    }

    /// Switches between the two orderings and re-sorts the hand.
    pub fn toggle_sort_method(&mut self)
        ensures
            final(self).sort_method == (match old(self).sort_method {
                SortMethod::ByRank => SortMethod::BySuit,
                SortMethod::BySuit => SortMethod::ByRank,
            }),
            sorted_by(final(self).sort_method, final(self).cards_in_hand@),
            final(self).cards_in_hand@.to_multiset() == old(self).cards_in_hand@.to_multiset(),
            *final(self) == (Player {
                sort_method: final(self).sort_method,
                cards_in_hand: final(self).cards_in_hand,
                ..*old(self)
            }),
    {
        self.sort_method = match self.sort_method {
            SortMethod::ByRank => SortMethod::BySuit,
            SortMethod::BySuit => SortMethod::ByRank,
        };
        self.sort_cards_in_hand();
    }

    /// Deals from the top of the round deck until the hand holds the
    /// configured maximum or the deck is exhausted, then sorts the hand.
    pub fn deal_hand(&mut self)
        ensures
            ({
                let dealt = refill_count(
                    old(self).cards_in_hand@.len() as int,
                    old(self).current_deck@.len() as int,
                    old(self).max_cards_in_hand as int,
                );
                &&& final(self).current_deck@ == old(self).current_deck@.take(
                    old(self).current_deck@.len() - dealt,
                )
                &&& final(self).cards_in_hand@.len() == old(self).cards_in_hand@.len() + dealt
                &&& final(self).cards_in_hand@.to_multiset().add(
                    final(self).current_deck@.to_multiset(),
                ) == old(self).cards_in_hand@.to_multiset().add(
                    old(self).current_deck@.to_multiset(),
                )
                &&& sorted_by(old(self).sort_method, final(self).cards_in_hand@)
                &&& *final(self) == (Player {
                    cards_in_hand: final(self).cards_in_hand,
                    current_deck: final(self).current_deck,
                    ..*old(self)
                })
            }),
    {
        broadcast use vstd::seq_lib::group_to_multiset_ensures;

        let max = self.max_cards_in_hand as usize;
        while self.cards_in_hand.len() < max && self.current_deck.len() > 0
            invariant
                max == self.max_cards_in_hand as usize,
                self.cards_in_hand@.len() <= max || self.cards_in_hand@.len() == old(
                    self,
                ).cards_in_hand@.len(),
                self.cards_in_hand@.len() >= old(self).cards_in_hand@.len(),
                self.current_deck@.len() <= old(self).current_deck@.len(),
                self.current_deck@ == old(self).current_deck@.take(self.current_deck@.len() as int),
                self.cards_in_hand@.len() + self.current_deck@.len() == old(
                    self,
                ).cards_in_hand@.len() + old(self).current_deck@.len(),
                self.cards_in_hand@.len() < max ==> self.cards_in_hand@.len() + self.current_deck@.len()
                    <= old(self).cards_in_hand@.len() + old(self).current_deck@.len(),
                self.cards_in_hand@.len() > old(self).cards_in_hand@.len() ==> self.cards_in_hand@.len()
                    <= max,
                self.cards_in_hand@.to_multiset().add(self.current_deck@.to_multiset()) == old(
                    self,
                ).cards_in_hand@.to_multiset().add(old(self).current_deck@.to_multiset()),
                *self == (Player {
                    cards_in_hand: self.cards_in_hand,
                    current_deck: self.current_deck,
                    ..*old(self)
                }),
            decreases self.current_deck@.len(),
        {
            let ghost prev_hand = self.cards_in_hand@;
            let ghost prev_deck = self.current_deck@;
            proof {
                assert(prev_deck.drop_last() =~= prev_deck.take(prev_deck.len() - 1));
                assert(old(self).current_deck@.take(prev_deck.len() as int).drop_last() =~= old(
                    self,
                ).current_deck@.take(prev_deck.len() - 1));
                assert(prev_deck =~= prev_deck.drop_last().push(prev_deck.last()));
                vstd::seq_lib::to_multiset_build(prev_deck.drop_last(), prev_deck.last());
            }
            let card = self.current_deck.pop().unwrap();
            self.cards_in_hand.push(card);
            proof {
                vstd::seq_lib::to_multiset_build(prev_hand, card);
                assert(self.cards_in_hand@.to_multiset() == prev_hand.to_multiset().insert(card));
                assert(prev_deck.to_multiset() == self.current_deck@.to_multiset().insert(card));
                assert(self.cards_in_hand@.to_multiset().add(self.current_deck@.to_multiset())
                    =~= prev_hand.to_multiset().add(prev_deck.to_multiset()));
            }
        }
        self.sort_cards_in_hand();
    }

    /// Replaces the round deck with a random permutation of the full
    /// deck.
    pub fn shuffle_deck(&mut self)
        ensures
            final(self).current_deck@.to_multiset() == old(self).deck@.to_multiset(),
            final(self).current_deck@.len() == old(self).deck@.len(),
            *final(self) == (Player { current_deck: final(self).current_deck, ..*old(self) }),
    {
        let mut fresh = copy_cards(&self.deck);
        shuffle_cards(&mut fresh);
        self.current_deck = fresh;
    }

    /// Starts a round: empties the hand, shuffles a fresh round deck,
    /// deals a full hand, and resets the hand and discard counters.
    pub fn start_round(&mut self)
        ensures
            final(self).hands == old(self).max_hands,
            final(self).discards == old(self).max_discards,
            sorted_by(old(self).sort_method, final(self).cards_in_hand@),
            final(self).cards_in_hand@.len() == refill_count(
                0,
                old(self).deck@.len() as int,
                old(self).max_cards_in_hand as int,
            ),
            final(self).cards_in_hand@.to_multiset().add(final(self).current_deck@.to_multiset())
                == old(self).deck@.to_multiset(),
            *final(self) == (Player {
                cards_in_hand: final(self).cards_in_hand,
                current_deck: final(self).current_deck,
                hands: final(self).hands,
                discards: final(self).discards,
                ..*old(self)
            }),
    {
        broadcast use vstd::seq_lib::group_to_multiset_ensures;

        self.cards_in_hand.clear();
        self.shuffle_deck();
        proof {
            assert(Seq::<Card>::empty().to_multiset() =~= Multiset::empty());
            assert(self.cards_in_hand@.to_multiset().add(self.current_deck@.to_multiset())
                =~= self.current_deck@.to_multiset());
        }
        self.deal_hand();
        self.hands = self.max_hands;
        self.discards = self.max_discards;
    }

    /// Removes the cards at the given ascending positions from the hand
    /// — each selected position exactly once, from the highest down so
    /// earlier removals cannot shift later ones — then refills the hand
    /// from the round deck.
    pub fn discard_cards(&mut self, indices: &Vec<usize>)
        requires
            strictly_increasing(indices@),
            forall|k: int|
                0 <= k < indices@.len() ==> #[trigger] indices@[k] < old(
                    self,
                ).cards_in_hand@.len(),
        ensures
            ({
                let removed = remove_positions(old(self).cards_in_hand@, indices@);
                let dealt = refill_count(
                    removed.len() as int,
                    old(self).current_deck@.len() as int,
                    old(self).max_cards_in_hand as int,
                );
                &&& final(self).current_deck@ == old(self).current_deck@.take(
                    old(self).current_deck@.len() - dealt,
                )
                &&& final(self).cards_in_hand@.len() == removed.len() + dealt
                &&& final(self).cards_in_hand@.to_multiset().add(
                    final(self).current_deck@.to_multiset(),
                ) == removed.to_multiset().add(old(self).current_deck@.to_multiset())
                &&& sorted_by(old(self).sort_method, final(self).cards_in_hand@)
                &&& *final(self) == (Player {
                    cards_in_hand: final(self).cards_in_hand,
                    current_deck: final(self).current_deck,
                    ..*old(self)
                })
            }),
    {
        proof {
            assert(indices@.take(indices@.len() as int) =~= indices@);
        }
        let mut k = indices.len();
        while k > 0
            invariant
                k <= indices@.len(),
                strictly_increasing(indices@),
                forall|t: int|
                    0 <= t < indices@.len() ==> #[trigger] indices@[t] < old(
                        self,
                    ).cards_in_hand@.len(),
                self.cards_in_hand@.len() == old(self).cards_in_hand@.len() - (indices@.len() - k),
                forall|t: int| 0 <= t < k ==> #[trigger] indices@[t] < self.cards_in_hand@.len(),
                remove_positions(old(self).cards_in_hand@, indices@) == remove_positions(
                    self.cards_in_hand@,
                    indices@.take(k as int),
                ),
                *self == (Player { cards_in_hand: self.cards_in_hand, ..*old(self) }),
            decreases k,
        {
            proof {
                assert(indices@.take(k as int).drop_last() =~= indices@.take(k - 1));
                assert(indices@.take(k as int).last() == indices@[k - 1]);
            }
            let idx = indices[k - 1];
            self.cards_in_hand.remove(idx);
            k = k - 1;
            proof {
                assert forall|t: int| 0 <= t < k implies #[trigger] indices@[t]
                    < self.cards_in_hand@.len() by {
                    lemma_strictly_increasing_gap(indices@, t, indices@.len() - 1);
                }
            }
        }
        proof {
            assert(indices@.take(0) =~= Seq::<usize>::empty());
        }
        self.deal_hand();
    }

    /// Moves a joker from one position to another, shifting the jokers
    /// in between; the held order is significant for scoring. Returns
    /// whether the pair of positions was valid and the move happened.
    pub fn move_joker(&mut self, indices: &Vec<usize>) -> (moved: bool)
        ensures
            moved == (indices@.len() == 2 && indices@[0] < old(self).jokers@.len() && indices@[1]
                < old(self).jokers@.len()),
            moved ==> final(self).jokers@ == old(self).jokers@.remove(indices@[0] as int).insert(
                indices@[1] as int,
                old(self).jokers@[indices@[0] as int],
            ),
            !moved ==> final(self).jokers@ == old(self).jokers@,
            *final(self) == (Player { jokers: final(self).jokers, ..*old(self) }),
    {
        if indices.len() != 2 {
            return false;
        }
        let from_idx = indices[0];
        let to_idx = indices[1];
        if from_idx >= self.jokers.len() || to_idx >= self.jokers.len() {
            return false;
        }
        let joker = self.jokers.remove(from_idx);
        self.jokers.insert(to_idx, joker);
        true
    }

    /// Whether another joker fits under the configured maximum.
    pub fn can_add_joker(&self) -> (b: bool)
        ensures
            b == (self.jokers@.len() < self.max_jokers as int),
    {
        self.jokers.len() < self.max_jokers as usize
    }

    /// Appends a newly acquired joker at the end of the held order.
    pub fn add_joker(&mut self, j: Joker)
        requires
            old(self).jokers@.len() < old(self).max_jokers as int,
        ensures
            final(self).jokers@ == old(self).jokers@.push(j),
            *final(self) == (Player { jokers: final(self).jokers, ..*old(self) }),
    {
        self.jokers.push(j);
    }

    /// Replaces the joker at a position with a new one.
    pub fn replace_joker(&mut self, index: usize, j: Joker)
        requires
            index < old(self).jokers@.len(),
        ensures
            final(self).jokers@ == old(self).jokers@.update(index as int, j),
            *final(self) == (Player { jokers: final(self).jokers, ..*old(self) }),
    {
        self.jokers.set(index, j);
    }
}

/// The largest (chips, mult) product one played hand can score: chips
/// stay at or below 25715 and mult at or below 6901 for any hand and up
/// to 255 held jokers.
pub const TURN_SCORE_MAX: u64 = 177_459_215;

/// One round: the blind to beat and the score accumulated so far in it.
pub struct Round {
    pub blind: Blind,
    pub score: u64,
}

impl Round {
    /// Opens a round against a freshly built blind, with no score yet.
    pub fn new(ante: u8, blind_type: BlindType) -> (r: Round)
        requires
            ante < 15,
        ensures
            r.score == 0,
            r.blind.score as int == blind_score(blind_type, ante as int),
            match r.blind.boss_ability {
                Option::Some(a) => blind_type == BlindType::Boss && r.blind.name@
                    == "Boss Blind - "@ + boss_name(a) && r.blind.description@
                    == boss_description(a),
                Option::None => blind_type != BlindType::Boss && r.blind.name@ == blind_type_name(
                    blind_type,
                ),
            },
    {
        let blind = Blind::new(blind_type, ante);
        Round { blind, score: 0 }
    }
}

/// What a played hand means for the round: the target was reached, the
/// last hand was spent short of it, or the round goes on.
#[derive(Clone, Copy, Debug, PartialEq, Eq, Structural)]
pub enum TurnStatus {
    Won,
    Lost,
    Continuing,
}

/// The run manager: the progression position, the round in play, and
/// the player.
pub struct GameManager {
    pub ante: u8,
    pub current_blind: BlindType,
    pub current_round: Round,
    pub player: Player,
}

impl GameManager {
    /// The run invariant: the ante stays a valid table row, the player
    /// is well formed, and the round score never exceeds what the hands
    /// already spent could have produced — so adding one more hand's
    /// score cannot overflow.
    pub open spec fn wf(self) -> bool {
        &&& 1 <= self.ante < 15
        &&& self.player.wf()
        &&& self.current_round.score as int <= (self.player.max_hands - self.player.hands) as int
            * TURN_SCORE_MAX as int
    }

    /// Starts a run at ante 1 against the Small blind, with the player's
    /// first round dealt.
    pub fn new(player: Player) -> (g: GameManager)
        requires
            player.wf(),
        ensures
            g.wf(),
            g.ante == 1,
            g.current_blind == BlindType::Small,
            g.current_round.score == 0,
            g.current_round.blind.score as int == blind_score(BlindType::Small, 1),
            g.player.jokers@ == player.jokers@,
            g.player.money == player.money,
            g.player.deck@ == player.deck@,
            g.player.hands == player.max_hands,
            g.player.discards == player.max_discards,
            g.player.max_hands == player.max_hands,
            g.player.max_jokers == player.max_jokers,
            g.player.cards_in_hand@.to_multiset().add(g.player.current_deck@.to_multiset())
                == player.deck@.to_multiset(),
            sorted_by(player.sort_method, g.player.cards_in_hand@),
    {
        let ante: u8 = 1;
        let current_blind = BlindType::Small;
        let mut player = player;
        player.start_round();
        let current_round = Round::new(ante, current_blind);
        GameManager { ante, current_blind, current_round, player }
    }

    /// Advances the run to the next blind: Small to Big, Big to Boss,
    /// and after a Boss the ante rises and a new Small blind opens. A
    /// fresh round is built and the player's round state is reset.
    pub fn next_round(&mut self)
        requires
            old(self).wf(),
            old(self).current_blind == BlindType::Boss ==> old(self).ante < 14,
        ensures
            final(self).wf(),
            final(self).current_blind == (match old(self).current_blind {
                BlindType::Small => BlindType::Big,
                BlindType::Big => BlindType::Boss,
                BlindType::Boss => BlindType::Small,
            }),
            final(self).ante == if old(self).current_blind == BlindType::Boss {
                (old(self).ante + 1) as u8
            } else {
                old(self).ante
            },
            final(self).current_round.score == 0,
            final(self).current_round.blind.score as int == blind_score(
                final(self).current_blind,
                final(self).ante as int,
            ),
            final(self).player.jokers@ == old(self).player.jokers@,
            final(self).player.money == old(self).player.money,
            final(self).player.deck@ == old(self).player.deck@,
            final(self).player.hands == old(self).player.max_hands,
            final(self).player.discards == old(self).player.max_discards,
    {
        self.current_blind = match self.current_blind {
            BlindType::Small => BlindType::Big,
            BlindType::Big => BlindType::Boss,
            BlindType::Boss => {
                self.ante = self.ante + 1;
                BlindType::Small
            },
        };
        self.current_round = Round::new(self.ante, self.current_blind);
        self.player.start_round();
    }

    /// Scores a classified hand for the current round: the scoring
    /// engine run against this round's blind and the player's held
    /// jokers in their held order.
    pub fn calculate_hand_score(
        &self,
        cards: &Vec<Card>,
        hand_type: &PokerHand,
        scoring_card_indices: &Vec<usize>,
    ) -> (r: (u64, u64))
        requires
            1 <= cards@.len() <= 5,
            scoring_card_indices@.len() >= 1,
            strictly_increasing(scoring_card_indices@),
            forall|k: int|
                0 <= k < scoring_card_indices@.len() ==> #[trigger] scoring_card_indices@[k]
                    < cards@.len(),
            self.player.jokers@.len() <= 255,
        ensures
            (r.0 as int, r.1 as int) == hand_score(
                cards@,
                *hand_type,
                scoring_card_indices@,
                self.current_round.blind.boss_ability,
                self.player.jokers@,
            ),
            r.0 <= 25715,
            r.1 <= 6901,
    {
        score_hand(cards, hand_type, scoring_card_indices, &self.current_round.blind, &self.player.jokers)
    }

    /// Whether a selection of card positions can be played or discarded:
    /// between one and five strictly ascending positions, all inside the
    /// current hand.
    pub fn selection_valid(&self, indices: &Vec<usize>) -> (ok: bool)
        ensures
            ok == (1 <= indices@.len() <= 5 && strictly_increasing(indices@) && (forall|k: int|
                0 <= k < indices@.len() ==> #[trigger] indices@[k]
                    < self.player.cards_in_hand@.len())),
    {
        let n = indices.len();
        if n < 1 || n > 5 {
            return false;
        }
        let hand_len = self.player.cards_in_hand.len();
        let mut k: usize = 0;
        let mut ok = true;
        while k < n
            invariant
                k <= n,
                n == indices@.len(),
                hand_len == self.player.cards_in_hand@.len(),
                ok == ((forall|t1: int, t2: int|
                    0 <= t1 < t2 < k ==> #[trigger] indices@[t1] < #[trigger] indices@[t2]) && (
                forall|t: int| 0 <= t < k ==> #[trigger] indices@[t] < hand_len) && (k < n ==> (
                forall|t: int| 0 <= t < k ==> #[trigger] indices@[t] < indices@[k as int]))),
            decreases n - k,
        {
            if indices[k] >= hand_len {
                ok = false;
            }
            if k + 1 < n && indices[k] >= indices[k + 1] {
                ok = false;
            }
            k = k + 1;
        }
        if ok {
            proof {
                assert forall|t1: int, t2: int| 0 <= t1 < t2 < n implies #[trigger] indices@[t1]
                    < #[trigger] indices@[t2] by {
                }
            }
        }
        ok
    }

    /// Plays a selection of cards from the hand: classifies the played
    /// cards, scores them against the round's blind and the held jokers,
    /// adds chips times mult to the round score, spends one hand, and
    /// removes the played cards from the hand (refilling from the deck).
    /// Reports whether the round was won, lost on the last hand, or goes
    /// on.
    pub fn play_selected(&mut self, indices: &Vec<usize>) -> (st: TurnStatus)
        requires
            old(self).wf(),
            old(self).player.hands >= 1,
            1 <= indices@.len() <= 5,
            strictly_increasing(indices@),
            forall|k: int|
                0 <= k < indices@.len() ==> #[trigger] indices@[k] < old(
                    self,
                ).player.cards_in_hand@.len(),
        ensures
            final(self).wf(),
            ({
                let hand0 = old(self).player.cards_in_hand@;
                let played = scoring_cards(hand0, indices@);
                let cm = hand_score(
                    played,
                    classify_cat(played),
                    classify_attr(played),
                    old(self).current_round.blind.boss_ability,
                    old(self).player.jokers@,
                );
                &&& final(self).current_round.score as int == old(self).current_round.score as int
                    + cm.0 * cm.1
                &&& final(self).current_round.blind == old(self).current_round.blind
                &&& final(self).player.hands == old(self).player.hands - 1
                &&& final(self).player.discards == old(self).player.discards
                &&& final(self).player.jokers@ == old(self).player.jokers@
                &&& final(self).player.money == old(self).player.money
                &&& final(self).player.deck@ == old(self).player.deck@
                &&& final(self).ante == old(self).ante
                &&& final(self).current_blind == old(self).current_blind
                &&& final(self).player.cards_in_hand@.to_multiset().add(
                    final(self).player.current_deck@.to_multiset(),
                ) == remove_positions(hand0, indices@).to_multiset().add(
                    old(self).player.current_deck@.to_multiset(),
                )
                &&& sorted_by(old(self).player.sort_method, final(self).player.cards_in_hand@)
                &&& (st == TurnStatus::Won <==> final(self).current_round.score
                    >= final(self).current_round.blind.score)
                &&& (st == TurnStatus::Lost <==> final(self).current_round.score
                    < final(self).current_round.blind.score && final(self).player.hands == 0)
                &&& (st == TurnStatus::Continuing <==> final(self).current_round.score
                    < final(self).current_round.blind.score && final(self).player.hands > 0)
            }),
    {
        let played = gather_cards(&self.player.cards_in_hand, indices);
        let (hand_type, scoring_card_indices) = determine_poker_hand(&played);
        proof {
            lemma_attr_valid(played@);
        }
        let (chips, mult) = self.calculate_hand_score(&played, &hand_type, &scoring_card_indices);
        proof {
            assert(chips as int * mult as int <= 177_459_215) by (nonlinear_arith)
                requires
                    chips <= 25715,
                    mult <= 6901,
            ;
            let spent = (old(self).player.max_hands - old(self).player.hands) as int;
            assert(spent * TURN_SCORE_MAX as int + TURN_SCORE_MAX as int == (spent + 1)
                * TURN_SCORE_MAX as int) by (nonlinear_arith);
            assert((spent + 1) * TURN_SCORE_MAX as int <= 255 * TURN_SCORE_MAX as int)
                by (nonlinear_arith)
                requires
                    0 <= spent + 1 <= 255,
            ;
        }
        let round_score = chips * mult;
        self.current_round.score = self.current_round.score + round_score;
        self.player.hands = self.player.hands - 1;
        self.player.discard_cards(indices);
        if self.current_round.score >= self.current_round.blind.score {
            TurnStatus::Won
        } else if self.player.hands == 0 {
            TurnStatus::Lost
        } else {
            TurnStatus::Continuing
        }
    }

    /// Discards a selection of cards, spending one discard: the selected
    /// cards leave the hand and the hand is refilled from the deck.
    pub fn discard_selected(&mut self, indices: &Vec<usize>)
        requires
            old(self).wf(),
            old(self).player.discards >= 1,
            1 <= indices@.len() <= 5,
            strictly_increasing(indices@),
            forall|k: int|
                0 <= k < indices@.len() ==> #[trigger] indices@[k] < old(
                    self,
                ).player.cards_in_hand@.len(),
        ensures
            final(self).wf(),
            final(self).player.discards == old(self).player.discards - 1,
            final(self).player.hands == old(self).player.hands,
            final(self).player.jokers@ == old(self).player.jokers@,
            final(self).current_round == old(self).current_round,
            final(self).ante == old(self).ante,
            final(self).current_blind == old(self).current_blind,
            final(self).player.cards_in_hand@.to_multiset().add(
                final(self).player.current_deck@.to_multiset(),
            ) == remove_positions(old(self).player.cards_in_hand@, indices@).to_multiset().add(
                old(self).player.current_deck@.to_multiset(),
            ),
            sorted_by(old(self).player.sort_method, final(self).player.cards_in_hand@),
    {
        self.player.discard_cards(indices);
        self.player.discards = self.player.discards - 1;
    }
}

/// Collects the cards at the selected positions, in selection order.
fn gather_cards(cards: &Vec<Card>, indices: &Vec<usize>) -> (out: Vec<Card>)
    requires
        forall|k: int| 0 <= k < indices@.len() ==> #[trigger] indices@[k] < cards@.len(),
    ensures
        out@ == scoring_cards(cards@, indices@),
        out@.len() == indices@.len(),
{
    let n = indices.len();
    let mut out: Vec<Card> = Vec::new();
    let mut k: usize = 0;
    while k < n
        invariant
            k <= n,
            n == indices@.len(),
            forall|t: int| 0 <= t < n ==> #[trigger] indices@[t] < cards@.len(),
            out@.len() == k,
            forall|t: int| 0 <= t < k ==> #[trigger] out@[t] == cards@[indices@[t] as int],
        decreases n - k,
    {
        out.push(cards[indices[k]]);
        k = k + 1;
    }
    assert(out@ =~= scoring_cards(cards@, indices@));
    out
}

/// In a strictly increasing sequence, positions `k1 < k2` are at least
/// `k2 - k1` apart in value.
proof fn lemma_strictly_increasing_gap(s: Seq<usize>, k1: int, k2: int)
    requires
        strictly_increasing(s),
        0 <= k1 <= k2 < s.len(),
    ensures
        s[k2] >= s[k1] + (k2 - k1),
    decreases k2 - k1,
{
    if k1 < k2 {
        lemma_strictly_increasing_gap(s, k1, k2 - 1);
    }
}

/// Copies a card vector element by element.
fn copy_cards(v: &Vec<Card>) -> (out: Vec<Card>)
    ensures
        out@ == v@,
{
    let n = v.len();
    let mut out: Vec<Card> = Vec::new();
    let mut i: usize = 0;
    while i < n
        invariant
            i <= n,
            n == v@.len(),
            out@.len() == i,
            forall|k: int| 0 <= k < i ==> #[trigger] out@[k] == v@[k],
        decreases n - i,
    {
        out.push(v[i]);
        i = i + 1;
    }
    assert(out@ =~= v@);
    out
}

} // verus!
