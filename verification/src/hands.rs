//! The hand classifier: maps a sequence of 1 to 5 played cards to a
//! poker-hand category and the set of card positions that score.

use vstd::prelude::*;

verus! {

use crate::cards::{Card, Rank, rank_order};

/// The closed set of hand categories, with a strict precedence order
/// (highest first): FlushFive, FlushHouse, FiveOfAKind, StraightFlush,
/// FourOfAKind, FullHouse, Flush, Straight, ThreeOfAKind, TwoPair, Pair,
/// HighCard. The classifier tests in that order and returns on the first
/// match, so exactly one category is assigned.
#[derive(Clone, Copy, Debug, PartialEq, Eq, Structural)]
pub enum PokerHand {
    HighCard,
    Pair,
    TwoPair,
    ThreeOfAKind,
    Straight,
    Flush,
    FullHouse,
    FourOfAKind,
    StraightFlush,
    FiveOfAKind,
    FlushHouse,
    FlushFive,
}

impl PokerHand {
    /// Display name of the category.
    pub fn name(&self) -> (r: &'static str)
        ensures
            r@ == category_name(*self),
    {
        match self {
            PokerHand::HighCard => "High Card",
            PokerHand::Pair => "Pair",
            PokerHand::TwoPair => "Two Pair",
            PokerHand::ThreeOfAKind => "Three of a Kind",
            PokerHand::Straight => "Straight",
            PokerHand::Flush => "Flush",
            PokerHand::FullHouse => "Full House",
            PokerHand::FourOfAKind => "Four of a Kind",
            PokerHand::StraightFlush => "Straight Flush",
            PokerHand::FiveOfAKind => "Five of a Kind",
            PokerHand::FlushHouse => "Flush House",
            PokerHand::FlushFive => "Flush Five",
        }
    }
}

/// Display name of each hand category.
pub open spec fn category_name(h: PokerHand) -> Seq<char> {
    match h {
        PokerHand::HighCard => "High Card"@,
        PokerHand::Pair => "Pair"@,
        PokerHand::TwoPair => "Two Pair"@,
        PokerHand::ThreeOfAKind => "Three of a Kind"@,
        PokerHand::Straight => "Straight"@,
        PokerHand::Flush => "Flush"@,
        PokerHand::FullHouse => "Full House"@,
        PokerHand::FourOfAKind => "Four of a Kind"@,
        PokerHand::StraightFlush => "Straight Flush"@,
        PokerHand::FiveOfAKind => "Five of a Kind"@,
        PokerHand::FlushHouse => "Flush House"@,
        PokerHand::FlushFive => "Flush Five"@,
    }
}

/// Number of cards whose rank has ordering value `v`.
pub open spec fn count_order(cards: Seq<Card>, v: int) -> nat
    decreases cards.len(),
{
    if cards.len() == 0 {
        0
    } else {
        count_order(cards.drop_last(), v) + if rank_order(cards.last().rank) == v {
            1nat
        } else {
            0nat
        }
    }
}

/// Number of cards sharing rank `r`. Because the ordering value determines
/// the rank, this is the count of the rank's ordering value.
pub open spec fn rank_count(cards: Seq<Card>, r: Rank) -> nat {
    count_order(cards, rank_order(r))
}

/// Some card's rank occurs exactly `n` times in the hand.
pub open spec fn has_rank_count(cards: Seq<Card>, n: nat) -> bool {
    exists|i: int| 0 <= i < cards.len() && rank_count(cards, cards[i].rank) == n
}

/// Two different ranks each occur exactly twice. With at most five cards
/// this says the hand has exactly two pairs.
pub open spec fn has_two_pairs(cards: Seq<Card>) -> bool {
    exists|i: int, j: int|
        0 <= i < cards.len() && 0 <= j < cards.len() && cards[i].rank != cards[j].rank
            && rank_count(cards, cards[i].rank) == 2 && rank_count(cards, cards[j].rank) == 2
}

/// Exactly five cards, all sharing the suit of the first card.
pub open spec fn is_flush(cards: Seq<Card>) -> bool {
    cards.len() == 5 && forall|i: int|
        0 <= i < cards.len() ==> (#[trigger] cards[i]).suit == cards[0].suit
}

/// Every card shares the rank of the first card.
pub open spec fn all_same_rank(cards: Seq<Card>) -> bool {
    forall|i: int| 0 <= i < cards.len() ==> (#[trigger] cards[i]).rank == cards[0].rank
}

/// Exactly five cards, all of one rank.
pub open spec fn is_five_of_a_kind(cards: Seq<Card>) -> bool {
    cards.len() == 5 && all_same_rank(cards)
}

/// Exactly five cards, every one sharing both rank and suit with the first.
pub open spec fn is_flush_five(cards: Seq<Card>) -> bool {
    is_flush(cards) && all_same_rank(cards)
}

/// One rank occurring three times and a different one twice. With five
/// cards this is exactly a full house's 3 + 2 shape.
pub open spec fn is_full_house_shape(cards: Seq<Card>) -> bool {
    has_rank_count(cards, 3) && has_rank_count(cards, 2)
}

/// Exactly one card of each of the five consecutive ordering values
/// `m`, `m + 1`, ..., `m + 4`.
pub open spec fn run_at(cards: Seq<Card>, m: int) -> bool {
    forall|k: int| 0 <= k < 5 ==> #[trigger] count_order(cards, m + k) == 1
}

/// The ace-low wheel A,2,3,4,5: one ace (value 14) and one card of each
/// of the values 2, 3, 4 and 5.
pub open spec fn is_wheel(cards: Seq<Card>) -> bool {
    count_order(cards, 14) == 1 && forall|k: int|
        0 <= k < 4 ==> #[trigger] count_order(cards, 2 + k) == 1
}

/// Exactly five cards whose ordering values, sorted ascending, differ by
/// exactly one between neighbours — stated here as a consecutive run of
/// five values each present exactly once — or form the ace-low wheel.
pub open spec fn is_straight(cards: Seq<Card>) -> bool {
    cards.len() == 5 && ((exists|m: int| 2 <= m <= 10 && run_at(cards, m)) || is_wheel(cards))
}

/// The category of a hand: the first match in the precedence order.
pub open spec fn classify_cat(cards: Seq<Card>) -> PokerHand {
    if is_flush_five(cards) {
        PokerHand::FlushFive
    } else if is_flush(cards) && is_full_house_shape(cards) {
        PokerHand::FlushHouse
    } else if is_five_of_a_kind(cards) {
        PokerHand::FiveOfAKind
    } else if is_flush(cards) && is_straight(cards) {
        PokerHand::StraightFlush
    } else if has_rank_count(cards, 4) {
        PokerHand::FourOfAKind
    } else if is_full_house_shape(cards) {
        PokerHand::FullHouse
    } else if is_flush(cards) {
        PokerHand::Flush
    } else if is_straight(cards) {
        PokerHand::Straight
    } else if has_rank_count(cards, 3) {
        PokerHand::ThreeOfAKind
    } else if has_two_pairs(cards) {
        PokerHand::TwoPair
    } else if has_rank_count(cards, 2) {
        PokerHand::Pair
    } else {
        PokerHand::HighCard
    }
}

/// Indices below `upto`, in ascending order, of the cards whose rank
/// occurs exactly `n` times in the whole hand.
pub open spec fn indices_with_count_upto(cards: Seq<Card>, n: nat, upto: int) -> Seq<usize>
    decreases upto,
{
    if upto <= 0 {
        Seq::empty()
    } else {
        let prev = indices_with_count_upto(cards, n, upto - 1);
        if rank_count(cards, cards[upto - 1].rank) == n {
            prev.push((upto - 1) as usize)
        } else {
            prev
        }
    }
}

/// Indices, in ascending order, of the cards whose rank occurs exactly
/// `n` times.
pub open spec fn indices_with_count(cards: Seq<Card>, n: nat) -> Seq<usize> {
    indices_with_count_upto(cards, n, cards.len() as int)
}

/// Among the first `upto` cards, the index of the highest-ranked card,
/// the earliest position winning ties.
pub open spec fn first_max_upto(cards: Seq<Card>, upto: int) -> int
    decreases upto,
{
    if upto <= 1 {
        0
    } else {
        let p = first_max_upto(cards, upto - 1);
        if rank_order(cards[upto - 1].rank) > rank_order(cards[p].rank) {
            upto - 1
        } else {
            p
        }
    }
}

/// Index of the single highest-ranked card, the earliest position winning
/// ties in ordering value.
pub open spec fn high_card_index(cards: Seq<Card>) -> int {
    first_max_upto(cards, cards.len() as int)
}

/// The index sequence 0, 1, ..., n-1.
pub open spec fn all_indices(n: nat) -> Seq<usize> {
    Seq::new(n, |i: int| i as usize)
}

/// The scoring attribution of a hand: which positions count toward the
/// chip total. Categories that use all cards attribute the full index
/// range; the rank-grouping categories attribute exactly the indices of
/// the grouped rank(s); HighCard attributes the single highest card.
pub open spec fn classify_attr(cards: Seq<Card>) -> Seq<usize> {
    match classify_cat(cards) {
        PokerHand::FourOfAKind => indices_with_count(cards, 4),
        PokerHand::ThreeOfAKind => indices_with_count(cards, 3),
        PokerHand::TwoPair => indices_with_count(cards, 2),
        PokerHand::Pair => indices_with_count(cards, 2),
        PokerHand::HighCard => seq![high_card_index(cards) as usize],
        _ => all_indices(cards.len()),
    }
}

/// Every element is strictly smaller than its successors; in particular
/// the elements are distinct.
pub open spec fn strictly_increasing(s: Seq<usize>) -> bool {
    forall|k1: int, k2: int| 0 <= k1 < k2 < s.len() ==> #[trigger] s[k1] < #[trigger] s[k2]
}

/// The count of an ordering value never exceeds the hand size.
proof fn lemma_count_order_le_len(cards: Seq<Card>, v: int)
    ensures
        count_order(cards, v) <= cards.len(),
    decreases cards.len(),
{
    if cards.len() > 0 {
        lemma_count_order_le_len(cards.drop_last(), v);
    }
}

/// Two distinct positions sharing an ordering value push its count to two.
proof fn lemma_count_order_pair(cards: Seq<Card>, v: int, i: int, j: int)
    requires
        0 <= i < j < cards.len(),
        rank_order(cards[i].rank) == v,
        rank_order(cards[j].rank) == v,
    ensures
        count_order(cards, v) >= 2,
    decreases cards.len(),
{
    lemma_count_order_single(cards.drop_last(), v, i);
    if j < cards.len() - 1 {
        lemma_count_order_pair(cards.drop_last(), v, i, j);
        lemma_count_order_le_len(cards.drop_last(), v);
    }
}

/// A position holding an ordering value makes its count at least one.
proof fn lemma_count_order_single(cards: Seq<Card>, v: int, i: int)
    requires
        0 <= i < cards.len(),
        rank_order(cards[i].rank) == v,
    ensures
        count_order(cards, v) >= 1,
    decreases cards.len(),
{
    if i < cards.len() - 1 {
        lemma_count_order_single(cards.drop_last(), v, i);
    }
}

/// Sum of the counts of five pairwise distinct ordering values.
spec fn count_five(cards: Seq<Card>, v0: int, v1: int, v2: int, v3: int, v4: int) -> int {
    count_order(cards, v0) + count_order(cards, v1) + count_order(cards, v2) as int + count_order(
        cards,
        v3,
    ) as int + count_order(cards, v4) as int
}

/// Five distinct ordering values together count at most the hand size,
/// and strictly less as soon as some card carries a sixth value.
proof fn lemma_count_five_le_len(cards: Seq<Card>, v0: int, v1: int, v2: int, v3: int, v4: int)
    requires
        v0 != v1 && v0 != v2 && v0 != v3 && v0 != v4,
        v1 != v2 && v1 != v3 && v1 != v4,
        v2 != v3 && v2 != v4,
        v3 != v4,
    ensures
        count_five(cards, v0, v1, v2, v3, v4) <= cards.len(),
        (exists|i: int|
            0 <= i < cards.len() && rank_order((#[trigger] cards[i]).rank) != v0 && rank_order(
                cards[i].rank,
            ) != v1 && rank_order(cards[i].rank) != v2 && rank_order(cards[i].rank) != v3
                && rank_order(cards[i].rank) != v4) ==> count_five(cards, v0, v1, v2, v3, v4)
            <= cards.len() - 1,
    decreases cards.len(),
{
    if cards.len() > 0 {
        lemma_count_five_le_len(cards.drop_last(), v0, v1, v2, v3, v4);
        let prev = cards.drop_last();
        if exists|i: int|
            0 <= i < cards.len() && rank_order((#[trigger] cards[i]).rank) != v0 && rank_order(
                cards[i].rank,
            ) != v1 && rank_order(cards[i].rank) != v2 && rank_order(cards[i].rank) != v3
                && rank_order(cards[i].rank) != v4 {
            let i = choose|i: int|
                0 <= i < cards.len() && rank_order((#[trigger] cards[i]).rank) != v0 && rank_order(
                    cards[i].rank,
                ) != v1 && rank_order(cards[i].rank) != v2 && rank_order(cards[i].rank) != v3
                    && rank_order(cards[i].rank) != v4;
            if i < cards.len() - 1 {
                assert(prev[i] == cards[i]);
            }
        }
    }
}

/// In a straight every rank occurs exactly once.
pub proof fn lemma_straight_ranks_distinct(cards: Seq<Card>)
    requires
        is_straight(cards),
    ensures
        forall|i: int|
            0 <= i < cards.len() ==> rank_count(cards, (#[trigger] cards[i]).rank) == 1,
{
    if exists|m: int| 2 <= m <= 10 && run_at(cards, m) {
        let m = choose|m: int| 2 <= m <= 10 && run_at(cards, m);
        assert(count_order(cards, m + 0) == 1);
        assert(count_order(cards, m + 1) == 1);
        assert(count_order(cards, m + 2) == 1);
        assert(count_order(cards, m + 3) == 1);
        assert(count_order(cards, m + 4) == 1);
        lemma_count_five_le_len(cards, m, m + 1, m + 2, m + 3, m + 4);
        assert forall|i: int| 0 <= i < cards.len() implies rank_count(
            cards,
            (#[trigger] cards[i]).rank,
        ) == 1 by {
            let v = rank_order(cards[i].rank);
            if v != m && v != m + 1 && v != m + 2 && v != m + 3 && v != m + 4 {
                assert(count_five(cards, m, m + 1, m + 2, m + 3, m + 4) <= cards.len() - 1);
            }
        }
    } else {
        assert(is_wheel(cards));
        assert(count_order(cards, 2 + 0int) == 1);
        assert(count_order(cards, 2 + 1int) == 1);
        assert(count_order(cards, 2 + 2int) == 1);
        assert(count_order(cards, 2 + 3int) == 1);
        lemma_count_five_le_len(cards, 14, 2, 3, 4, 5);
        assert forall|i: int| 0 <= i < cards.len() implies rank_count(
            cards,
            (#[trigger] cards[i]).rank,
        ) == 1 by {
            let v = rank_order(cards[i].rank);
            if v != 14 && v != 2 && v != 3 && v != 4 && v != 5 {
                assert(count_five(cards, 14, 2, 3, 4, 5) <= cards.len() - 1);
            }
        }
    }
}

/// Any five-card hand whose suits all match and whose ranks form a
/// consecutive run (or the ace-low wheel) classifies as StraightFlush —
/// the stronger all-suit categories FlushFive and FlushHouse, and
/// FiveOfAKind, cannot hold of distinct ranks — and every position is
/// attributed.
pub proof fn lemma_straight_flush_classification(cards: Seq<Card>)
    requires
        is_flush(cards),
        is_straight(cards),
    ensures
        classify_cat(cards) == PokerHand::StraightFlush,
        classify_attr(cards) == all_indices(cards.len()),
{
    lemma_straight_ranks_distinct(cards);
    assert(!all_same_rank(cards)) by {
        if all_same_rank(cards) {
            lemma_count_order_pair(cards, rank_order(cards[0].rank), 0, 1);
        }
    }
    assert(!has_rank_count(cards, 3));
    assert(!has_rank_count(cards, 4));
}

/// Shape of the ascending index sequence of a rank-count group: all
/// entries lie below `upto`, they increase strictly, and a position below
/// `upto` appears exactly when its rank occurs `n` times in the hand.
proof fn lemma_indices_upto_props(cards: Seq<Card>, n: nat, upto: int)
    requires
        0 <= upto <= cards.len() <= 5,
    ensures
        forall|k: int|
            0 <= k < indices_with_count_upto(cards, n, upto).len() ==> #[trigger] indices_with_count_upto(
                cards,
                n,
                upto,
            )[k] < upto,
        strictly_increasing(indices_with_count_upto(cards, n, upto)),
        forall|i: int|
            0 <= i < upto ==> (indices_with_count_upto(cards, n, upto).contains(i as usize)
                <==> rank_count(cards, (#[trigger] cards[i]).rank) == n),
    decreases upto,
{
    if upto > 0 {
        lemma_indices_upto_props(cards, n, upto - 1);
        let prev = indices_with_count_upto(cards, n, upto - 1);
        let cur = indices_with_count_upto(cards, n, upto);
        if rank_count(cards, cards[upto - 1].rank) == n {
            assert(cur == prev.push((upto - 1) as usize));
            assert forall|k1: int, k2: int| 0 <= k1 < k2 < cur.len() implies #[trigger] cur[k1]
                < #[trigger] cur[k2] by {
                if k2 == cur.len() - 1 {
                    assert(cur[k1] == prev[k1]);
                    assert(prev[k1] < upto - 1);
                } else {
                    assert(cur[k1] == prev[k1] && cur[k2] == prev[k2]);
                }
            }
        }
        assert forall|i: int|
            0 <= i < upto implies (cur.contains(i as usize) <==> rank_count(
            cards,
            (#[trigger] cards[i]).rank,
        ) == n) by {
            if rank_count(cards, cards[i].rank) == n {
                if i == upto - 1 {
                    if rank_count(cards, cards[upto - 1].rank) == n {
                        assert(cur == prev.push((upto - 1) as usize));
                        assert(cur[cur.len() - 1] == (upto - 1) as usize);
                        assert(cur.contains(i as usize));
                    }
                } else {
                    assert(prev.contains(i as usize));
                    let k = choose|k: int| 0 <= k < prev.len() && prev[k] == i as usize;
                    if rank_count(cards, cards[upto - 1].rank) == n {
                        assert(cur == prev.push((upto - 1) as usize));
                        assert(cur[k] == i as usize);
                    }
                    assert(cur.contains(i as usize));
                }
            } else {
                if cur.contains(i as usize) {
                    let k = choose|k: int| 0 <= k < cur.len() && cur[k] == i as usize;
                    if rank_count(cards, cards[upto - 1].rank) == n {
                        assert(cur == prev.push((upto - 1) as usize));
                        if k < prev.len() {
                            assert(prev.contains(i as usize));
                        }
                    } else {
                        assert(cur == prev);
                        assert(prev.contains(i as usize));
                    }
                }
            }
        }
    }
}

/// Bounds of the high-card choice: it is a valid position, no card
/// outranks it, and every earlier position ranks strictly lower.
pub proof fn lemma_first_max_props(cards: Seq<Card>, upto: int)
    requires
        1 <= upto <= cards.len(),
    ensures
        0 <= first_max_upto(cards, upto) < upto,
        forall|j: int|
            0 <= j < upto ==> rank_order((#[trigger] cards[j]).rank) <= rank_order(
                cards[first_max_upto(cards, upto)].rank,
            ),
        forall|j: int|
            0 <= j < first_max_upto(cards, upto) ==> rank_order((#[trigger] cards[j]).rank)
                < rank_order(cards[first_max_upto(cards, upto)].rank),
    decreases upto,
{
    if upto > 1 {
        lemma_first_max_props(cards, upto - 1);
    }
}

/// In a strictly increasing sequence each entry is at least its position.
proof fn lemma_strictly_increasing_index(s: Seq<usize>, k: int)
    requires
        strictly_increasing(s),
        0 <= k < s.len(),
    ensures
        s[k] >= k,
    decreases k,
{
    if k > 0 {
        lemma_strictly_increasing_index(s, k - 1);
    }
}

/// A strictly increasing sequence of positions below `bound` has at most
/// `bound` entries.
pub proof fn lemma_strictly_increasing_len(s: Seq<usize>, bound: int)
    requires
        strictly_increasing(s),
        forall|k: int| 0 <= k < s.len() ==> #[trigger] s[k] < bound,
        bound >= 0,
    ensures
        s.len() <= bound,
{
    if s.len() > bound {
        lemma_strictly_increasing_index(s, bound);
    }
}

/// For every hand of 1 to 5 cards the attribution is non-empty, every
/// attributed position is a valid index into the hand, and the positions
/// are strictly ascending (hence a set of distinct positions).
pub proof fn lemma_attr_valid(cards: Seq<Card>)
    requires
        1 <= cards.len() <= 5,
    ensures
        classify_attr(cards).len() >= 1,
        classify_attr(cards).len() <= cards.len(),
        forall|k: int|
            0 <= k < classify_attr(cards).len() ==> #[trigger] classify_attr(cards)[k]
                < cards.len(),
        strictly_increasing(classify_attr(cards)),
{
    let attr = classify_attr(cards);
    let len = cards.len() as int;
    match classify_cat(cards) {
        PokerHand::FourOfAKind => {
            lemma_indices_upto_props(cards, 4, len);
            let i = choose|i: int| 0 <= i < cards.len() && rank_count(cards, cards[i].rank) == 4;
            assert(attr.contains(i as usize));
            lemma_strictly_increasing_len(attr, len);
        },
        PokerHand::ThreeOfAKind => {
            lemma_indices_upto_props(cards, 3, len);
            let i = choose|i: int| 0 <= i < cards.len() && rank_count(cards, cards[i].rank) == 3;
            assert(attr.contains(i as usize));
            lemma_strictly_increasing_len(attr, len);
        },
        PokerHand::TwoPair => {
            lemma_indices_upto_props(cards, 2, len);
            let (a, b) = choose|a: int, b: int|
                0 <= a < cards.len() && 0 <= b < cards.len() && cards[a].rank != cards[b].rank
                    && rank_count(cards, cards[a].rank) == 2 && rank_count(cards, cards[b].rank)
                    == 2;
            assert(attr.contains(a as usize));
            lemma_strictly_increasing_len(attr, len);
        },
        PokerHand::Pair => {
            lemma_indices_upto_props(cards, 2, len);
            let i = choose|i: int| 0 <= i < cards.len() && rank_count(cards, cards[i].rank) == 2;
            assert(attr.contains(i as usize));
            lemma_strictly_increasing_len(attr, len);
        },
        PokerHand::HighCard => {
            lemma_first_max_props(cards, len);
        },
        _ => {
            assert(attr == all_indices(cards.len()));
        },
    }
}

/// Classification is a pure function of the played sequence: two
/// evaluations of the same cards — for instance two successive calls of
/// the classifier — agree in both category and attribution.
pub proof fn lemma_classify_deterministic(
    cards: Seq<Card>,
    cat1: PokerHand,
    attr1: Seq<usize>,
    cat2: PokerHand,
    attr2: Seq<usize>,
)
    requires
        cat1 == classify_cat(cards),
        attr1 == classify_attr(cards),
        cat2 == classify_cat(cards),
        attr2 == classify_attr(cards),
    ensures
        cat1 == cat2,
        attr1 == attr2,
{
}

/// Counts the cards whose rank has ordering value `v`.
fn count_order_value(cards: &Vec<Card>, v: u8) -> (c: usize)
    ensures
        c as nat == count_order(cards@, v as int),
{
    let len = cards.len();
    let mut c: usize = 0;
    let mut i: usize = 0;
    while i < len
        invariant
            i <= len,
            len == cards@.len(),
            c <= i,
            c as nat == count_order(cards@.take(i as int), v as int),
        decreases len - i,
    {
        assert(cards@.take(i + 1).drop_last() =~= cards@.take(i as int));
        if crate::cards::rank_order_value(cards[i].rank) == v {
            c = c + 1;
        }
        i = i + 1;
    }
    assert(cards@.take(len as int) =~= cards@);
    c
}

/// Counts the cards sharing rank `r`.
fn count_of_rank(cards: &Vec<Card>, r: Rank) -> (c: usize)
    ensures
        c as nat == rank_count(cards@, r),
{
    count_order_value(cards, crate::cards::rank_order_value(r))
}

/// Finds the first index whose rank occurs exactly `n` times, if any.
fn find_count_index(cards: &Vec<Card>, n: usize) -> (r: Option<usize>)
    ensures
        match r {
            Some(i) => i < cards@.len() && rank_count(cards@, cards@[i as int].rank) == n as nat
                && forall|j: int|
                0 <= j < i ==> rank_count(cards@, (#[trigger] cards@[j]).rank) != n as nat,
            None => !has_rank_count(cards@, n as nat),
        },
{
    let len = cards.len();
    let mut i: usize = 0;
    while i < len
        invariant
            i <= len,
            len == cards@.len(),
            forall|j: int|
                0 <= j < i ==> rank_count(cards@, (#[trigger] cards@[j]).rank) != n as nat,
        decreases len - i,
    {
        if count_of_rank(cards, cards[i].rank) == n {
            return Some(i);
        }
        i = i + 1;
    }
    None
}

/// Whether some rank occurs exactly `n` times.
fn check_has_count(cards: &Vec<Card>, n: usize) -> (b: bool)
    ensures
        b == has_rank_count(cards@, n as nat),
{
    match find_count_index(cards, n) {
        Some(_) => true,
        None => false,
    }
}

/// Whether exactly two different ranks occur twice each.
fn check_two_pairs(cards: &Vec<Card>) -> (b: bool)
    ensures
        b == has_two_pairs(cards@),
{
    match find_count_index(cards, 2) {
        None => false,
        Some(i0) => {
            let r0 = cards[i0].rank;
            let len = cards.len();
            let mut j: usize = 0;
            while j < len
                invariant
                    j <= len,
                    len == cards@.len(),
                    i0 < len,
                    r0 == cards@[i0 as int].rank,
                    rank_count(cards@, r0) == 2,
                    forall|k: int|
                        0 <= k < j && rank_count(cards@, (#[trigger] cards@[k]).rank) == 2
                            ==> cards@[k].rank == r0,
                decreases len - j,
            {
                if cards[j].rank != r0 && count_of_rank(cards, cards[j].rank) == 2 {
                    return true;
                }
                j = j + 1;
            }
            proof {
                if has_two_pairs(cards@) {
                    let (a, b) = choose|a: int, b: int|
                        0 <= a < cards@.len() && 0 <= b < cards@.len() && cards@[a].rank
                            != cards@[b].rank && rank_count(cards@, cards@[a].rank) == 2
                            && rank_count(cards@, cards@[b].rank) == 2;
                    assert(cards@[a].rank == r0);
                    assert(cards@[b].rank == r0);
                }
            }
            false
        },
    }
}

/// Whether all five cards share the first card's suit.
fn check_flush(cards: &Vec<Card>) -> (b: bool)
    ensures
        b == is_flush(cards@),
{
    let len = cards.len();
    if len != 5 {
        return false;
    }
    let first = cards[0].suit;
    let mut i: usize = 0;
    while i < len
        invariant
            i <= len,
            len == cards@.len(),
            len == 5,
            first == cards@[0].suit,
            forall|j: int| 0 <= j < i ==> (#[trigger] cards@[j]).suit == first,
        decreases len - i,
    {
        if !(cards[i].suit == first) {
            return false;
        }
        i = i + 1;
    }
    true
}

/// Whether every card shares the first card's rank.
fn check_all_same_rank(cards: &Vec<Card>) -> (b: bool)
    requires
        cards@.len() >= 1,
    ensures
        b == all_same_rank(cards@),
{
    let len = cards.len();
    let first = cards[0].rank;
    let mut i: usize = 0;
    while i < len
        invariant
            i <= len,
            len == cards@.len(),
            len >= 1,
            first == cards@[0].rank,
            forall|j: int| 0 <= j < i ==> (#[trigger] cards@[j]).rank == first,
        decreases len - i,
    {
        if !(cards[i].rank == first) {
            return false;
        }
        i = i + 1;
    }
    true
}

/// Whether each of the five ordering values `m`..`m + 4` occurs exactly once.
fn check_run_at(cards: &Vec<Card>, m: u8) -> (b: bool)
    requires
        2 <= m <= 10,
    ensures
        b == run_at(cards@, m as int),
{
    let mut k: u8 = 0;
    while k < 5
        invariant
            k <= 5,
            2 <= m <= 10,
            forall|kk: int| 0 <= kk < k ==> #[trigger] count_order(cards@, m + kk) == 1,
        decreases 5 - k,
    {
        if count_order_value(cards, m + k) != 1 {
            return false;
        }
        k = k + 1;
    }
    true
}

/// Whether the hand is the ace-low wheel A,2,3,4,5.
fn check_wheel(cards: &Vec<Card>) -> (b: bool)
    ensures
        b == is_wheel(cards@),
{
    if count_order_value(cards, 14) != 1 {
        return false;
    }
    let mut k: u8 = 0;
    while k < 4
        invariant
            k <= 4,
            count_order(cards@, 14) == 1,
            forall|kk: int| 0 <= kk < k ==> #[trigger] count_order(cards@, 2 + kk) == 1,
        decreases 4 - k,
    {
        if count_order_value(cards, 2 + k) != 1 {
            return false;
        }
        k = k + 1;
    }
    true
}

/// Whether the five cards form a consecutive run or the wheel.
fn check_straight(cards: &Vec<Card>) -> (b: bool)
    ensures
        b == is_straight(cards@),
{
    if cards.len() != 5 {
        return false;
    }
    let mut m: u8 = 2;
    while m <= 10
        invariant
            2 <= m <= 11,
            cards@.len() == 5,
            forall|mm: int| 2 <= mm < m ==> !#[trigger] run_at(cards@, mm),
        decreases 11 - m,
    {
        if check_run_at(cards, m) {
            return true;
        }
        m = m + 1;
    }
    check_wheel(cards)
}

/// Collects, in ascending order, the indices whose rank occurs exactly
/// `n` times.
fn collect_indices_with_count(cards: &Vec<Card>, n: usize) -> (v: Vec<usize>)
    ensures
        v@ == indices_with_count(cards@, n as nat),
{
    let len = cards.len();
    let mut v: Vec<usize> = Vec::new();
    let mut i: usize = 0;
    while i < len
        invariant
            i <= len,
            len == cards@.len(),
            v@ == indices_with_count_upto(cards@, n as nat, i as int),
        decreases len - i,
    {
        if count_of_rank(cards, cards[i].rank) == n {
            v.push(i);
        }
        i = i + 1;
    }
    v
}

/// The index vector 0, 1, ..., len-1.
fn collect_all_indices(len: usize) -> (v: Vec<usize>)
    ensures
        v@ == all_indices(len as nat),
{
    let mut v: Vec<usize> = Vec::new();
    let mut i: usize = 0;
    while i < len
        invariant
            i <= len,
            v@.len() == i,
            forall|k: int| 0 <= k < i ==> #[trigger] v@[k] == k as usize,
        decreases len - i,
    {
        v.push(i);
        i = i + 1;
    }
    assert(v@ =~= all_indices(len as nat));
    v
}

/// The index of the highest-ranked card, earliest position winning ties.
fn find_high_card(cards: &Vec<Card>) -> (hi: usize)
    requires
        cards@.len() >= 1,
    ensures
        hi as int == high_card_index(cards@),
        hi < cards@.len(),
{
    let len = cards.len();
    let mut hi: usize = 0;
    let mut i: usize = 1;
    while i < len
        invariant
            1 <= i <= len,
            len == cards@.len(),
            hi < i,
            hi as int == first_max_upto(cards@, i as int),
        decreases len - i,
    {
        if crate::cards::rank_order_value(cards[i].rank) > crate::cards::rank_order_value(
            cards[hi].rank,
        ) {
            hi = i;
        }
        i = i + 1;
    }
    hi
}

/// Classifies a played hand of 1 to 5 cards: returns the hand category —
/// the first match in the strict precedence order — together with the
/// indices of the cards that count toward scoring, in ascending order.
pub fn determine_poker_hand(cards: &Vec<Card>) -> (r: (PokerHand, Vec<usize>))
    requires
        1 <= cards@.len() <= 5,
    ensures
        r.0 == classify_cat(cards@),
        r.1@ == classify_attr(cards@),
{
    let len = cards.len();
    let flush = check_flush(cards);
    let straight = check_straight(cards);
    let same_rank = check_all_same_rank(cards);
    let full_house = check_has_count(cards, 3) && check_has_count(cards, 2);

    if len == 5 && same_rank && flush {
        return (PokerHand::FlushFive, collect_all_indices(len));
    }
    if flush && full_house {
        return (PokerHand::FlushHouse, collect_all_indices(len));
    }
    if len == 5 && same_rank {
        return (PokerHand::FiveOfAKind, collect_all_indices(len));
    }
    if flush && straight {
        return (PokerHand::StraightFlush, collect_all_indices(len));
    }
    if check_has_count(cards, 4) {
        return (PokerHand::FourOfAKind, collect_indices_with_count(cards, 4));
    }
    if full_house {
        return (PokerHand::FullHouse, collect_all_indices(len));
    }
    if flush {
        return (PokerHand::Flush, collect_all_indices(len));
    }
    if straight {
        return (PokerHand::Straight, collect_all_indices(len));
    }
    if check_has_count(cards, 3) {
        return (PokerHand::ThreeOfAKind, collect_indices_with_count(cards, 3));
    }
    if check_two_pairs(cards) {
        return (PokerHand::TwoPair, collect_indices_with_count(cards, 2));
    }
    if check_has_count(cards, 2) {
        return (PokerHand::Pair, collect_indices_with_count(cards, 2));
    }
    let hi = find_high_card(cards);
    let mut v: Vec<usize> = Vec::new();
    v.push(hi);
    assert(v@ =~= seq![high_card_index(cards@) as usize]);
    (PokerHand::HighCard, v)
}

} // verus!
