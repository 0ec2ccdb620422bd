//! The blind model: the per-round challenge with its score target and,
//! for boss blinds, a randomly drawn debuff ability that suppresses the
//! scoring of cards of one suit.

use vstd::prelude::*;

verus! {

use crate::cards::{Card, Suit};
use vstd::string::StringExecFns;

/// The three blind kinds of a round progression.
#[derive(Clone, Copy, Debug, PartialEq, Eq, Structural)]
pub enum BlindType {
    Small,
    Big,
    Boss,
}

/// Display name of each blind kind.
pub open spec fn blind_type_name(t: BlindType) -> Seq<char> {
    match t {
        BlindType::Small => "Small Blind"@,
        BlindType::Big => "Big Blind"@,
        BlindType::Boss => "Boss Blind"@,
    }
}

impl BlindType {
    /// Display name of the blind kind.
    pub fn name(&self) -> (r: &'static str)
        ensures
            r@ == blind_type_name(*self),
    {
        match self {
            BlindType::Small => "Small Blind",
            BlindType::Big => "Big Blind",
            BlindType::Boss => "Boss Blind",
        }
    }
}

/// The fixed ascending table of base score targets, indexed by ante.
pub open spec fn ante_base(ante: int) -> int {
    if ante == 0 {
        100
    } else if ante == 1 {
        300
    } else if ante == 2 {
        800
    } else if ante == 3 {
        2000
    } else if ante == 4 {
        5000
    } else if ante == 5 {
        11_000
    } else if ante == 6 {
        20_000
    } else if ante == 7 {
        35_000
    } else if ante == 8 {
        50_000
    } else if ante == 9 {
        110_000
    } else if ante == 10 {
        560_000
    } else if ante == 11 {
        7_200_000
    } else if ante == 12 {
        300_000_000
    } else if ante == 13 {
        47_000_000_000
    } else {
        29_000_000_000_000
    }
}

/// Executable counterpart of [`ante_base`] for the table's fifteen rows.
pub fn ante_base_score(ante: u8) -> (s: u64)
    requires
        ante < 15,
    ensures
        s as int == ante_base(ante as int),
{
    if ante == 0 {
        100
    } else if ante == 1 {
        300
    } else if ante == 2 {
        800
    } else if ante == 3 {
        2000
    } else if ante == 4 {
        5000
    } else if ante == 5 {
        11_000
    } else if ante == 6 {
        20_000
    } else if ante == 7 {
        35_000
    } else if ante == 8 {
        50_000
    } else if ante == 9 {
        110_000
    } else if ante == 10 {
        560_000
    } else if ante == 11 {
        7_200_000
    } else if ante == 12 {
        300_000_000
    } else if ante == 13 {
        47_000_000_000
    } else {
        29_000_000_000_000
    }
}

/// Boss ability that debuffs every Club card.
#[derive(Clone, Copy, Debug, PartialEq, Eq, Structural)]
pub struct TheClub;

impl TheClub {
    /// Display name.
    pub fn name(&self) -> (r: &'static str)
        ensures
            r@ == "The Club"@,
    {
        "The Club"
    }

    /// Description shown to the player.
    pub fn description(&self) -> (r: &'static str)
        ensures
            r@ == "All Club cards are debuffed"@,
    {
        "All Club cards are debuffed"
    }

    /// The debuff predicate: matches exactly the Club cards.
    pub fn is_card_debuffed(&self, card: &Card) -> (b: bool)
        ensures
            b == (card.suit == Suit::Clubs),
    {
        card.suit == Suit::Clubs
    }
}

/// Boss ability that debuffs every Spade card.
#[derive(Clone, Copy, Debug, PartialEq, Eq, Structural)]
pub struct TheGoad;

impl TheGoad {
    /// Display name.
    pub fn name(&self) -> (r: &'static str)
        ensures
            r@ == "The Goad"@,
    {
        "The Goad"
    }

    /// Description shown to the player.
    pub fn description(&self) -> (r: &'static str)
        ensures
            r@ == "All Spade cards are debuffed"@,
    {
        "All Spade cards are debuffed"
    }

    /// The debuff predicate: matches exactly the Spade cards.
    pub fn is_card_debuffed(&self, card: &Card) -> (b: bool)
        ensures
            b == (card.suit == Suit::Spades),
    {
        card.suit == Suit::Spades
    }
}

/// Boss ability that debuffs every Diamond card.
#[derive(Clone, Copy, Debug, PartialEq, Eq, Structural)]
pub struct TheWindow;

impl TheWindow {
    /// Display name.
    pub fn name(&self) -> (r: &'static str)
        ensures
            r@ == "The Window"@,
    {
        "The Window"
    }

    /// Description shown to the player.
    pub fn description(&self) -> (r: &'static str)
        ensures
            r@ == "All Diamond cards are debuffed"@,
    {
        "All Diamond cards are debuffed"
    }

    /// The debuff predicate: matches exactly the Diamond cards.
    pub fn is_card_debuffed(&self, card: &Card) -> (b: bool)
        ensures
            b == (card.suit == Suit::Diamonds),
    {
        card.suit == Suit::Diamonds
    }
}

/// Boss ability that debuffs every Heart card.
#[derive(Clone, Copy, Debug, PartialEq, Eq, Structural)]
pub struct TheHead;

impl TheHead {
    /// Display name.
    pub fn name(&self) -> (r: &'static str)
        ensures
            r@ == "The Head"@,
    {
        "The Head"
    }

    /// Description shown to the player.
    pub fn description(&self) -> (r: &'static str)
        ensures
            r@ == "All Heart cards are debuffed"@,
    {
        "All Heart cards are debuffed"
    }

    /// The debuff predicate: matches exactly the Heart cards.
    pub fn is_card_debuffed(&self, card: &Card) -> (b: bool)
        ensures
            b == (card.suit == Suit::Hearts),
    {
        card.suit == Suit::Hearts
    }
}

/// The registered boss debuff abilities as one closed sum.
#[derive(Clone, Copy, Debug, PartialEq, Eq, Structural)]
pub enum BossAbility {
    Club(TheClub),
    Goad(TheGoad),
    Window(TheWindow),
    Head(TheHead),
}

/// The suit each boss ability debuffs.
pub open spec fn boss_debuffed_suit(a: BossAbility) -> Suit {
    match a {
        BossAbility::Club(_) => Suit::Clubs,
        BossAbility::Goad(_) => Suit::Spades,
        BossAbility::Window(_) => Suit::Diamonds,
        BossAbility::Head(_) => Suit::Hearts,
    }
}

/// The debuff predicate of a boss ability: a card matches exactly when
/// its suit is the debuffed suit.
pub open spec fn boss_debuffs(a: BossAbility, c: Card) -> bool {
    c.suit == boss_debuffed_suit(a)
}

/// Display name of each boss ability.
pub open spec fn boss_name(a: BossAbility) -> Seq<char> {
    match a {
        BossAbility::Club(_) => "The Club"@,
        BossAbility::Goad(_) => "The Goad"@,
        BossAbility::Window(_) => "The Window"@,
        BossAbility::Head(_) => "The Head"@,
    }
}

/// Description of each boss ability.
pub open spec fn boss_description(a: BossAbility) -> Seq<char> {
    match a {
        BossAbility::Club(_) => "All Club cards are debuffed"@,
        BossAbility::Goad(_) => "All Spade cards are debuffed"@,
        BossAbility::Window(_) => "All Diamond cards are debuffed"@,
        BossAbility::Head(_) => "All Heart cards are debuffed"@,
    }
}

impl BossAbility {
    /// Display name.
    pub fn name(&self) -> (r: &'static str)
        ensures
            r@ == boss_name(*self),
    {
        match self {
            BossAbility::Club(a) => a.name(),
            BossAbility::Goad(a) => a.name(),
            BossAbility::Window(a) => a.name(),
            BossAbility::Head(a) => a.name(),
        }
    }

    /// Description shown to the player.
    pub fn description(&self) -> (r: &'static str)
        ensures
            r@ == boss_description(*self),
    {
        match self {
            BossAbility::Club(a) => a.description(),
            BossAbility::Goad(a) => a.description(),
            BossAbility::Window(a) => a.description(),
            BossAbility::Head(a) => a.description(),
        }
    }

    /// The debuff predicate.
    pub fn is_card_debuffed(&self, card: &Card) -> (b: bool)
        ensures
            b == boss_debuffs(*self, *card),
    {
        match self {
            BossAbility::Club(a) => a.is_card_debuffed(card),
            BossAbility::Goad(a) => a.is_card_debuffed(card),
            BossAbility::Window(a) => a.is_card_debuffed(card),
            BossAbility::Head(a) => a.is_card_debuffed(card),
        }
    }
}

/// Whether a card is debuffed under an optional boss ability; with no
/// ability active nothing is debuffed.
pub open spec fn is_debuffed(boss: Option<BossAbility>, c: Card) -> bool {
    match boss {
        Option::Some(a) => boss_debuffs(a, c),
        Option::None => false,
    }
}

/// The boss ability a name resolves to. Each registered name maps to its
/// ability; an unrecognized name falls back to The Club, so resolution
/// never fails.
pub open spec fn boss_for_name(s: Seq<char>) -> BossAbility {
    if s == "The Club"@ {
        BossAbility::Club(TheClub)
    } else if s == "The Goad"@ {
        BossAbility::Goad(TheGoad)
    } else if s == "The Window"@ {
        BossAbility::Window(TheWindow)
    } else if s == "The Head"@ {
        BossAbility::Head(TheHead)
    } else {
        BossAbility::Club(TheClub)
    }
}

/// Compares two string slices by content.
fn str_eq(a: &str, b: &str) -> (r: bool)
    ensures
        r == (a@ == b@),
{
    let sa: String = a.to_owned();
    let sb: String = b.to_owned();
    sa == sb
}

/// The registry that resolves a boss ability by name.
pub struct BossBlindFactory;

impl BossBlindFactory {
    /// Resolves a boss-ability name; an unrecognized name resolves to
    /// The Club rather than failing.
    pub fn create_boss_blind(name: &str) -> (a: BossAbility)
        ensures
            a == boss_for_name(name@),
    {
        if str_eq(name, "The Club") {
            BossAbility::Club(TheClub)
        } else if str_eq(name, "The Goad") {
            BossAbility::Goad(TheGoad)
        } else if str_eq(name, "The Window") {
            BossAbility::Window(TheWindow)
        } else if str_eq(name, "The Head") {
            BossAbility::Head(TheHead)
        } else {
            BossAbility::Club(TheClub)
        }
    }
}

/// Relies on rand::Rng::gen_range over the half-open range 0..n: the
/// sampled value lies in the range; the range must be non-empty, as
/// gen_range panics on an empty one.
#[verifier::external_body]
fn pick_index(n: usize) -> (i: usize)
    requires
        n >= 1,
    ensures
        i < n,
{
    rand::Rng::gen_range(&mut rand::thread_rng(), 0..n)
}

/// The per-round challenge: a display name, the score target the round
/// must reach, a description of the boss effect if any, and at most one
/// boss debuff ability. A blind is immutable for the round once built.
pub struct Blind {
    pub name: String,
    pub score: u64,
    pub description: String,
    pub boss_ability: Option<BossAbility>,
}

/// Score target of a blind: Small plays the table value for the ante,
/// Big plays one and a half times that (rounded down), Boss twice.
pub open spec fn blind_score(t: BlindType, ante: int) -> int {
    match t {
        BlindType::Small => ante_base(ante),
        BlindType::Big => ante_base(ante) * 3 / 2,
        BlindType::Boss => ante_base(ante) * 2,
    }
}

impl Blind {
    /// Builds the blind for one round. Small and Big blinds carry no
    /// boss ability; a Boss blind draws one of the four registered boss
    /// abilities at random, doubles the target, and displays the drawn
    /// ability's name and description.
    pub fn new(blind_type: BlindType, ante: u8) -> (b: Blind)
        requires
            ante < 15,
        ensures
            b.score as int == blind_score(blind_type, ante as int),
            match b.boss_ability {
                Option::Some(a) => blind_type == BlindType::Boss && b.name@ == "Boss Blind - "@
                    + boss_name(a) && b.description@ == boss_description(a),
                Option::None => blind_type != BlindType::Boss && b.name@ == blind_type_name(
                    blind_type,
                ) && b.description@ == Seq::<char>::empty(),
            },
    {
        proof {
            assert(ante_base(ante as int) <= 29_000_000_000_000);
        }
        match blind_type {
            BlindType::Small => Blind {
                name: "Small Blind".to_owned(),
                score: ante_base_score(ante),
                description: String::new(),
                boss_ability: Option::None,
            },
            BlindType::Big => Blind {
                name: "Big Blind".to_owned(),
                score: ante_base_score(ante) * 3 / 2,
                description: String::new(),
                boss_ability: Option::None,
            },
            BlindType::Boss => {
                let mut boss_blinds: Vec<&str> = Vec::new();
                boss_blinds.push("The Club");
                boss_blinds.push("The Goad");
                boss_blinds.push("The Window");
                boss_blinds.push("The Head");
                let random_boss = boss_blinds[pick_index(boss_blinds.len())];
                let ability = BossBlindFactory::create_boss_blind(random_boss);
                Blind {
                    name: "Boss Blind - ".to_owned().concat(ability.name()),
                    score: ante_base_score(ante) * 2,
                    description: ability.description().to_owned(),
                    boss_ability: Option::Some(ability),
                }
            },
        }
    }
}

} // verus!
