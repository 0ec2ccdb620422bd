//! The scoring engine: turns a classified hand into a (chips, mult)
//! pair, consulting the blind's debuff for every attributed card and
//! firing the held jokers' hooks in held order.

use vstd::prelude::*;

verus! {

use crate::blinds::{Blind, BossAbility, is_debuffed};
use crate::cards::{Card, face_value, face_chips};
use crate::hands::{PokerHand, strictly_increasing, lemma_strictly_increasing_len};
use crate::jokers::{Joker, on_score_step, on_score_all, end_round_step};

/// The fixed base (chips, mult) each category opens with. This table is
/// a constant of the design, not runtime configuration.
pub open spec fn base_score(h: PokerHand) -> (int, int) {
    match h {
        PokerHand::FlushFive => (160, 16),
        PokerHand::FlushHouse => (140, 14),
        PokerHand::FiveOfAKind => (120, 12),
        PokerHand::StraightFlush => (100, 8),
        PokerHand::FourOfAKind => (60, 7),
        PokerHand::FullHouse => (40, 4),
        PokerHand::Flush => (35, 4),
        PokerHand::Straight => (30, 4),
        PokerHand::ThreeOfAKind => (30, 3),
        PokerHand::TwoPair => (20, 2),
        PokerHand::Pair => (10, 2),
        PokerHand::HighCard => (5, 1),
    }
}

/// Executable counterpart of [`base_score`].
pub fn base_for_category(h: &PokerHand) -> (r: (u64, u64))
    ensures
        (r.0 as int, r.1 as int) == base_score(*h),
{
    match h {
        PokerHand::FlushFive => (160, 16),
        PokerHand::FlushHouse => (140, 14),
        PokerHand::FiveOfAKind => (120, 12),
        PokerHand::StraightFlush => (100, 8),
        PokerHand::FourOfAKind => (60, 7),
        PokerHand::FullHouse => (40, 4),
        PokerHand::Flush => (35, 4),
        PokerHand::Straight => (30, 4),
        PokerHand::ThreeOfAKind => (30, 3),
        PokerHand::TwoPair => (20, 2),
        PokerHand::Pair => (10, 2),
        PokerHand::HighCard => (5, 1),
    }
}

/// Effect of scoring one attributed card: a debuffed card contributes
/// nothing and fires no hook; otherwise its face value is added to chips
/// and every held joker's card-scored hook fires in held order.
pub open spec fn card_step(
    jokers: Seq<Joker>,
    boss: Option<BossAbility>,
    c: Card,
    cm: (int, int),
) -> (int, int) {
    if is_debuffed(boss, c) {
        cm
    } else {
        on_score_all(jokers, c, (cm.0 + face_value(c.rank), cm.1))
    }
}

/// The per-card phase: the attributed positions are scored in the order
/// they are listed (ascending index order for a classified hand).
pub open spec fn play_phase(
    cards: Seq<Card>,
    attr: Seq<usize>,
    boss: Option<BossAbility>,
    jokers: Seq<Joker>,
    cm: (int, int),
) -> (int, int)
    decreases attr.len(),
{
    if attr.len() == 0 {
        cm
    } else {
        card_step(
            jokers,
            boss,
            cards[attr.last() as int],
            play_phase(cards, attr.drop_last(), boss, jokers, cm),
        )
    }
}

/// The end-of-round phase: every held joker's end-of-round hook fires in
/// held order, each seeing the full played sequence and the final
/// attribution.
pub open spec fn end_phase(
    jokers: Seq<Joker>,
    cards: Seq<Card>,
    attr: Seq<usize>,
    cm: (int, int),
) -> (int, int)
    decreases jokers.len(),
{
    if jokers.len() == 0 {
        cm
    } else {
        end_round_step(jokers.last(), cards, attr, end_phase(jokers.drop_last(), cards, attr, cm))
    }
}

/// The whole score of a played hand: the category's base values, then
/// the per-card phase over the attribution, then the end-of-round phase.
pub open spec fn hand_score(
    cards: Seq<Card>,
    cat: PokerHand,
    attr: Seq<usize>,
    boss: Option<BossAbility>,
    jokers: Seq<Joker>,
) -> (int, int) {
    end_phase(jokers, cards, attr, play_phase(cards, attr, boss, jokers, base_score(cat)))
}

/// The attributed positions whose card the boss ability does not debuff,
/// in their original order.
pub open spec fn undebuffed_attr(
    cards: Seq<Card>,
    attr: Seq<usize>,
    boss: Option<BossAbility>,
) -> Seq<usize>
    decreases attr.len(),
{
    if attr.len() == 0 {
        Seq::empty()
    } else {
        let prev = undebuffed_attr(cards, attr.drop_last(), boss);
        if is_debuffed(boss, cards[attr.last() as int]) {
            prev
        } else {
            prev.push(attr.last())
        }
    }
}

/// Debuff law: under a blind whose boss ability matches some suit, every
/// debuffed attributed card contributes zero chips and fires no
/// card-scored hook, while the remaining attributed cards score exactly
/// as they would with no boss ability active — the per-card phase over
/// the attribution equals the phase over the undebuffed positions alone,
/// with no debuff in force.
pub proof fn lemma_debuff_skips_cards(
    cards: Seq<Card>,
    attr: Seq<usize>,
    boss: Option<BossAbility>,
    jokers: Seq<Joker>,
    cm: (int, int),
)
    ensures
        play_phase(cards, attr, boss, jokers, cm) == play_phase(
            cards,
            undebuffed_attr(cards, attr, boss),
            Option::None,
            jokers,
            cm,
        ),
    decreases attr.len(),
{
    if attr.len() > 0 {
        lemma_debuff_skips_cards(cards, attr.drop_last(), boss, jokers, cm);
        let sub = undebuffed_attr(cards, attr.drop_last(), boss);
        if !is_debuffed(boss, cards[attr.last() as int]) {
            assert(undebuffed_attr(cards, attr, boss) == sub.push(attr.last()));
            assert(sub.push(attr.last()).drop_last() == sub);
            assert(sub.push(attr.last()).last() == attr.last());
        }
    }
}

/// The held order with the jokers at positions `k` and `k + 1` exchanged.
pub open spec fn swap_adjacent(jokers: Seq<Joker>, k: int) -> Seq<Joker> {
    jokers.update(k, jokers[k + 1]).update(k + 1, jokers[k])
}

/// Two card-scored hooks commute: each adds an amount that depends only
/// on the scored card, never on the running accumulator.
proof fn lemma_on_score_step_commutes(j1: Joker, j2: Joker, c: Card, cm: (int, int))
    ensures
        on_score_step(j2, c, on_score_step(j1, c, cm)) == on_score_step(
            j1,
            c,
            on_score_step(j2, c, cm),
        ),
{
}

/// Two end-of-round hooks commute: each adds a bonus that depends only
/// on the scoring cards' category, never on the running accumulator.
proof fn lemma_end_round_step_commutes(
    j1: Joker,
    j2: Joker,
    cards: Seq<Card>,
    attr: Seq<usize>,
    cm: (int, int),
)
    ensures
        end_round_step(j2, cards, attr, end_round_step(j1, cards, attr, cm)) == end_round_step(
            j1,
            cards,
            attr,
            end_round_step(j2, cards, attr, cm),
        ),
{
}

proof fn lemma_on_score_all_swap(jokers: Seq<Joker>, k: int, c: Card, cm: (int, int))
    requires
        0 <= k < jokers.len() - 1,
    ensures
        on_score_all(jokers, c, cm) == on_score_all(swap_adjacent(jokers, k), c, cm),
    decreases jokers.len(),
{
    let s2 = swap_adjacent(jokers, k);
    if k == jokers.len() - 2 {
        let dd = jokers.drop_last().drop_last();
        let base = on_score_all(dd, c, cm);
        lemma_on_score_step_commutes(jokers[k], jokers[k + 1], c, base);
        assert(jokers.drop_last().last() == jokers[k]);
        assert(on_score_all(jokers.drop_last(), c, cm) == on_score_step(jokers[k], c, base));
        assert(jokers.last() == jokers[k + 1]);
        assert(on_score_all(jokers, c, cm) == on_score_step(
            jokers[k + 1],
            c,
            on_score_step(jokers[k], c, base),
        ));
        assert(s2.drop_last().drop_last() =~= dd);
        assert(s2.drop_last().last() == jokers[k + 1]);
        assert(on_score_all(s2.drop_last(), c, cm) == on_score_step(jokers[k + 1], c, base));
        assert(s2.last() == jokers[k]);
        assert(on_score_all(s2, c, cm) == on_score_step(
            jokers[k],
            c,
            on_score_step(jokers[k + 1], c, base),
        ));
    } else {
        assert(s2.drop_last() =~= swap_adjacent(jokers.drop_last(), k));
        lemma_on_score_all_swap(jokers.drop_last(), k, c, cm);
        assert(s2.last() == jokers.last());
    }
}

proof fn lemma_play_phase_swap(
    cards: Seq<Card>,
    attr: Seq<usize>,
    boss: Option<BossAbility>,
    jokers: Seq<Joker>,
    k: int,
    cm: (int, int),
)
    requires
        0 <= k < jokers.len() - 1,
    ensures
        play_phase(cards, attr, boss, jokers, cm) == play_phase(
            cards,
            attr,
            boss,
            swap_adjacent(jokers, k),
            cm,
        ),
    decreases attr.len(),
{
    if attr.len() > 0 {
        lemma_play_phase_swap(cards, attr.drop_last(), boss, jokers, k, cm);
        let prev = play_phase(cards, attr.drop_last(), boss, jokers, cm);
        let c = cards[attr.last() as int];
        if !is_debuffed(boss, c) {
            lemma_on_score_all_swap(jokers, k, c, (prev.0 + face_value(c.rank), prev.1));
        }
    }
}

proof fn lemma_end_phase_swap(
    jokers: Seq<Joker>,
    k: int,
    cards: Seq<Card>,
    attr: Seq<usize>,
    cm: (int, int),
)
    requires
        0 <= k < jokers.len() - 1,
    ensures
        end_phase(jokers, cards, attr, cm) == end_phase(swap_adjacent(jokers, k), cards, attr, cm),
    decreases jokers.len(),
{
    let s2 = swap_adjacent(jokers, k);
    if k == jokers.len() - 2 {
        let dd = jokers.drop_last().drop_last();
        let base = end_phase(dd, cards, attr, cm);
        lemma_end_round_step_commutes(jokers[k], jokers[k + 1], cards, attr, base);
        assert(jokers.drop_last().last() == jokers[k]);
        assert(end_phase(jokers.drop_last(), cards, attr, cm) == end_round_step(
            jokers[k],
            cards,
            attr,
            base,
        ));
        assert(jokers.last() == jokers[k + 1]);
        assert(end_phase(jokers, cards, attr, cm) == end_round_step(
            jokers[k + 1],
            cards,
            attr,
            end_round_step(jokers[k], cards, attr, base),
        ));
        assert(s2.drop_last().drop_last() =~= dd);
        assert(s2.drop_last().last() == jokers[k + 1]);
        assert(end_phase(s2.drop_last(), cards, attr, cm) == end_round_step(
            jokers[k + 1],
            cards,
            attr,
            base,
        ));
        assert(s2.last() == jokers[k]);
        assert(end_phase(s2, cards, attr, cm) == end_round_step(
            jokers[k],
            cards,
            attr,
            end_round_step(jokers[k + 1], cards, attr, base),
        ));
    } else {
        assert(s2.drop_last() =~= swap_adjacent(jokers.drop_last(), k));
        lemma_end_phase_swap(jokers.drop_last(), k, cards, attr, cm);
        assert(s2.last() == jokers.last());
    }
}

/// Reordering law for the base ability set: exchanging two adjacent held
/// jokers never changes the final score, because every hook in the base
/// set only ever adds an amount that is independent of the running
/// accumulator — all such effects commute. An ability that scaled the
/// accumulator instead of adding to it would not commute with an adding
/// one, so this law is stated for the base set's hooks, not for
/// arbitrary hypothetical abilities.
pub proof fn lemma_swap_adjacent_jokers(
    cards: Seq<Card>,
    cat: PokerHand,
    attr: Seq<usize>,
    boss: Option<BossAbility>,
    jokers: Seq<Joker>,
    k: int,
)
    requires
        0 <= k < jokers.len() - 1,
    ensures
        hand_score(cards, cat, attr, boss, jokers) == hand_score(
            cards,
            cat,
            attr,
            boss,
            swap_adjacent(jokers, k),
        ),
{
    lemma_play_phase_swap(cards, attr, boss, jokers, k, base_score(cat));
    lemma_end_phase_swap(
        jokers,
        k,
        cards,
        attr,
        play_phase(cards, attr, boss, jokers, base_score(cat)),
    );
}

/// Computes the (chips, mult) score of a classified hand. The steps are
/// strictly ordered: base values from the category table; each attributed
/// card in ascending index order, where a card debuffed by the blind's
/// boss ability contributes zero and fires no card-scored hook, and any
/// other card adds its face value and then fires every held joker's
/// card-scored hook in held order; finally every held joker's
/// end-of-round hook in held order. The caller multiplies the returned
/// pair; the engine itself never does. The held collection is bounded by
/// the player's byte-sized joker maximum, which keeps every sum far from
/// overflowing.
pub fn score_hand(
    cards: &Vec<Card>,
    hand_type: &PokerHand,
    attr: &Vec<usize>,
    blind: &Blind,
    jokers: &Vec<Joker>,
) -> (r: (u64, u64))
    requires
        1 <= cards@.len() <= 5,
        attr@.len() >= 1,
        strictly_increasing(attr@),
        forall|k: int| 0 <= k < attr@.len() ==> #[trigger] attr@[k] < cards@.len(),
        jokers@.len() <= 255,
    ensures
        (r.0 as int, r.1 as int) == hand_score(
            cards@,
            *hand_type,
            attr@,
            blind.boss_ability,
            jokers@,
        ),
        r.0 <= 25715,
        r.1 <= 6901,
{
    proof {
        lemma_strictly_increasing_len(attr@, cards@.len() as int);
    }
    let base = base_for_category(hand_type);
    let mut chips: u64 = base.0;
    let mut mult: u64 = base.1;

    let n = attr.len();
    let nj = jokers.len();
    let mut k: usize = 0;
    while k < n
        invariant
            k <= n,
            n == attr@.len(),
            1 <= n <= 5,
            nj == jokers@.len(),
            nj <= 255,
            cards@.len() <= 5,
            forall|t: int| 0 <= t < n ==> #[trigger] attr@[t] < cards@.len(),
            (base.0 as int, base.1 as int) == base_score(*hand_type),
            (chips as int, mult as int) == play_phase(
                cards@,
                attr@.take(k as int),
                blind.boss_ability,
                jokers@,
                base_score(*hand_type),
            ),
            chips as int <= 160 + 11 * k,
            mult as int <= 16 + 765 * k,
        decreases n - k,
    {
        proof {
            assert(attr@.take(k + 1).drop_last() =~= attr@.take(k as int));
        }
        let i = attr[k];
        let card = cards[i];
        let debuffed = match &blind.boss_ability {
            Option::Some(a) => a.is_card_debuffed(&card),
            Option::None => false,
        };
        if !debuffed {
            let ghost pre = (chips as int, mult as int);
            chips = chips + face_chips(card.rank) as u64;
            let mut t: usize = 0;
            while t < nj
                invariant
                    t <= nj,
                    nj == jokers@.len(),
                    nj <= 255,
                    (chips as int, mult as int) == on_score_all(
                        jokers@.take(t as int),
                        card,
                        (pre.0 + face_value(card.rank), pre.1),
                    ),
                    chips as int == pre.0 + face_value(card.rank),
                    pre.1 <= 3076,
                    mult as int <= pre.1 + 3 * t,
                decreases nj - t,
            {
                proof {
                    assert(jokers@.take(t + 1).drop_last() =~= jokers@.take(t as int));
                }
                let j = jokers[t];
                j.on_score(&card, &mut chips, &mut mult);
                t = t + 1;
            }
            proof {
                assert(jokers@.take(nj as int) =~= jokers@);
            }
        }
        k = k + 1;
    }
    proof {
        assert(attr@.take(n as int) =~= attr@);
    }

    let mut t: usize = 0;
    while t < nj
        invariant
            t <= nj,
            nj == jokers@.len(),
            nj <= 255,
            n == attr@.len(),
            1 <= n <= 5,
            cards@.len() <= 5,
            forall|tt: int| 0 <= tt < n ==> #[trigger] attr@[tt] < cards@.len(),
            (chips as int, mult as int) == end_phase(
                jokers@.take(t as int),
                cards@,
                attr@,
                play_phase(cards@, attr@, blind.boss_ability, jokers@, base_score(*hand_type)),
            ),
            chips as int <= 215 + 100 * t,
            mult as int <= 3841 + 12 * t,
        decreases nj - t,
    {
        proof {
            assert(jokers@.take(t + 1).drop_last() =~= jokers@.take(t as int));
        }
        let j = jokers[t];
        j.end_of_round(&mut chips, &mut mult, cards, attr);
        t = t + 1;
    }
    proof {
        assert(jokers@.take(nj as int) =~= jokers@);
    }
    (chips, mult)
}

} // verus!
