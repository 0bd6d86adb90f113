//! Cards and their attributes.

use std::cmp::Ordering;
use uuid::Uuid;
use vstd::prelude::*;
use vstd::std_specs::cmp::PartialOrdSpec;

verus! {

/// The edition of a card, which adds a flat bonus to its chips.
#[derive(Clone, Copy, Debug, PartialEq, Eq, Structural)]
pub enum CardEdition {
    Base,
    Foil,
    Holographic,
    Polychrome,
}

impl CardEdition {
    /// The chips an edition adds: 50 for foil, 10 for holographic, none for
    /// the others.
    pub open spec fn chip_bonus(self) -> nat {
        match self {
            CardEdition::Foil => 50,
            CardEdition::Holographic => 10,
            CardEdition::Polychrome | CardEdition::Base => 0,
        }
    }
}

/// The enhancement of a card. Only `Bonus` and `Stone` change its chips.
#[derive(Clone, Copy, Debug, PartialEq, Eq, Structural)]
pub enum CardEnhancement {
    NoEnhancement,
    Bonus,
    Mult,
    Wild,
    Glass,
    Steel,
    Stone,
    Gold,
    Lucky,
}

impl CardEnhancement {
    /// What an enhancement makes of the chips of a card's rank: `Bonus` adds
    /// 30, `Stone` puts 50 in their place, every other leaves them.
    pub open spec fn enhance(self, base: nat) -> nat {
        match self {
            CardEnhancement::Bonus => base + 30,
            CardEnhancement::Stone => 50,
            _ => base,
        }
    }
}

/// The seal of a card. It is kept with the card and scores nothing.
#[derive(Clone, Copy, Debug, PartialEq, Eq, Structural)]
pub enum CardSeal {
    NoSeal,
    Red,
    Blue,
    Gold,
    Purple,
}

/// The four suits.
#[derive(Clone, Copy, Debug, PartialEq, Eq, Structural)]
pub enum Suit {
    Clubs,
    Diamonds,
    Hearts,
    Spades,
}

impl Suit {
    /// The suits in their fixed order.
    pub open spec fn spec_all() -> Seq<Suit> {
        seq![Suit::Clubs, Suit::Diamonds, Suit::Hearts, Suit::Spades]
    }

    /// Every suit once, in the fixed order clubs, diamonds, hearts, spades.
    pub fn all() -> (suits: [Suit; 4])
        ensures
            suits@ == Suit::spec_all(),
    {
        let suits = [Suit::Clubs, Suit::Diamonds, Suit::Hearts, Suit::Spades];
        assert(suits@ =~= Suit::spec_all());
        suits
    }
}

/// The thirteen ranks, from ace (lowest) to king (highest).
#[derive(Clone, Copy, Debug, PartialEq, Eq, Ord, Structural)]
pub enum Rank {
    Ace,
    Two,
    Three,
    Four,
    Five,
    Six,
    Seven,
    Eight,
    Nine,
    Ten,
    Jack,
    Queen,
    King,
}

impl Rank {
    /// The place of a rank in the order of ranks: 1 for the ace, 2 to 10 for
    /// the pip cards, 11, 12 and 13 for jack, queen and king.
    pub open spec fn ordinal(self) -> nat {
        match self {
            Rank::Ace => 1,
            Rank::Two => 2,
            Rank::Three => 3,
            Rank::Four => 4,
            Rank::Five => 5,
            Rank::Six => 6,
            Rank::Seven => 7,
            Rank::Eight => 8,
            Rank::Nine => 9,
            Rank::Ten => 10,
            Rank::Jack => 11,
            Rank::Queen => 12,
            Rank::King => 13,
        }
    }

    /// The ranks in ascending order.
    pub open spec fn spec_all() -> Seq<Rank> {
        seq![
            Rank::Ace,
            Rank::Two,
            Rank::Three,
            Rank::Four,
            Rank::Five,
            Rank::Six,
            Rank::Seven,
            Rank::Eight,
            Rank::Nine,
            Rank::Ten,
            Rank::Jack,
            Rank::Queen,
            Rank::King,
        ]
    }

    /// The chips a rank is worth by itself: 11 for the ace, the number of
    /// pips for two to nine, and 10 for ten, jack, queen and king.
    pub open spec fn spec_chip_value(self) -> nat {
        if self == Rank::Ace {
            11
        } else if self.ordinal() <= 9 {
            self.ordinal()
        } else {
            10
        }
    }

    /// Every rank once, in ascending order.
    pub fn all() -> (ranks: [Rank; 13])
        ensures
            ranks@ == Rank::spec_all(),
    {
        let ranks = [
            Rank::Ace,
            Rank::Two,
            Rank::Three,
            Rank::Four,
            Rank::Five,
            Rank::Six,
            Rank::Seven,
            Rank::Eight,
            Rank::Nine,
            Rank::Ten,
            Rank::Jack,
            Rank::Queen,
            Rank::King,
        ];
        assert(ranks@ =~= Rank::spec_all());
        ranks
    }

    /// The chips this rank is worth by itself.
    pub fn chip_value(&self) -> (chips: u32)
        ensures
            chips == self.spec_chip_value(),
    {
        match self {
            Rank::Ace => 11,
            Rank::Two => 2,
            Rank::Three => 3,
            Rank::Four => 4,
            Rank::Five => 5,
            Rank::Six => 6,
            Rank::Seven => 7,
            Rank::Eight => 8,
            Rank::Nine => 9,
            Rank::Ten | Rank::Jack | Rank::Queen | Rank::King => 10,
        }
    }

    fn place(&self) -> (place: u8)
        ensures
            place == self.ordinal(),
    {
        match self {
            Rank::Ace => 1,
            Rank::Two => 2,
            Rank::Three => 3,
            Rank::Four => 4,
            Rank::Five => 5,
            Rank::Six => 6,
            Rank::Seven => 7,
            Rank::Eight => 8,
            Rank::Nine => 9,
            Rank::Ten => 10,
            Rank::Jack => 11,
            Rank::Queen => 12,
            Rank::King => 13,
        }
    }
}

impl PartialOrd for Rank {
    /// Ranks compare by their place in the order: the ace is lowest and the
    /// king highest.
    fn partial_cmp(&self, other: &Rank) -> (order: Option<Ordering>) {
        let mine: u8 = self.place();
        let theirs: u8 = other.place();
        if mine < theirs {
            Some(Ordering::Less)
        } else if mine == theirs {
            Some(Ordering::Equal)
        } else {
            Some(Ordering::Greater)
        }
    }
}

impl vstd::std_specs::cmp::PartialOrdSpecImpl for Rank {
    open spec fn obeys_partial_cmp_spec() -> bool {
        true
    }

    open spec fn partial_cmp_spec(&self, other: &Rank) -> Option<Ordering> {
        if self.ordinal() < other.ordinal() {
            Some(Ordering::Less)
        } else if self.ordinal() == other.ordinal() {
            Some(Ordering::Equal)
        } else {
            Some(Ordering::Greater)
        }
    }
}

/// Two ranks compare as equal exactly when they are the same rank, and of two
/// different ranks one is less than the other: the order is total.
pub proof fn lemma_rank_order_is_total(a: Rank, b: Rank)
    ensures
        a.partial_cmp_spec(&b) == Some(Ordering::Equal) <==> a == b,
        a.partial_cmp_spec(&b) == Some(Ordering::Less) <==> b.partial_cmp_spec(&a) == Some(
            Ordering::Greater,
        ),
        a.partial_cmp_spec(&b) is Some,
{
}

/// The order of ranks is transitive.
pub proof fn lemma_rank_order_is_transitive(a: Rank, b: Rank, c: Rank)
    requires
        a.partial_cmp_spec(&b) == Some(Ordering::Less),
        b.partial_cmp_spec(&c) == Some(Ordering::Less),
    ensures
        a.partial_cmp_spec(&c) == Some(Ordering::Less),
{
}

/// A playing card. `uuid` is its identity: given once, when the card is
/// made, and the only thing a card is looked up by.
#[derive(Debug)]
pub struct Card {
    pub rank: Rank,
    pub suit: Suit,
    pub edition: CardEdition,
    pub enhancement: CardEnhancement,
    pub seal: CardSeal,
    pub misc_bonus: u128,
    pub uuid: Uuid,
}

impl Clone for Card {
    /// A copy of the card, identity included.
    fn clone(&self) -> (copy: Card)
        ensures
            copy == *self,
    {
        Card {
            rank: self.rank,
            suit: self.suit,
            edition: self.edition,
            enhancement: self.enhancement,
            seal: self.seal,
            misc_bonus: self.misc_bonus,
            uuid: self.uuid,
        }
    }
}

impl Card {
    /// Whether this is a card of the given rank and suit as it is first
    /// made: base edition, no enhancement, no seal, no bonus of its own.
    pub open spec fn is_plain(self, rank: Rank, suit: Suit) -> bool {
        &&& self.rank == rank
        &&& self.suit == suit
        &&& self.edition == CardEdition::Base
        &&& self.enhancement == CardEnhancement::NoEnhancement
        &&& self.seal == CardSeal::NoSeal
        &&& self.misc_bonus == 0
    }

    /// The chips a card scores: those of its rank as its enhancement leaves
    /// them, plus the bonus of its edition, plus the card's own bonus.
    pub open spec fn spec_chip_value(self) -> nat {
        self.enhancement.enhance(self.rank.spec_chip_value()) + self.edition.chip_bonus()
            + self.misc_bonus as nat
    }

    /// The chips this card scores, computed from its fields as they are now.
    pub fn chip_value(&self) -> (chips: u128)
        requires
            self.spec_chip_value() <= u128::MAX,
        ensures
            chips == self.spec_chip_value(),
    {
        self.chips_before_bonus() + self.misc_bonus
    }

    /// The chips this card scores, or `None` where they are more than a
    /// `u128` holds.
    pub fn checked_chip_value(&self) -> (chips: Option<u128>)
        ensures
            chips is Some <==> self.spec_chip_value() <= u128::MAX,
            chips matches Some(value) ==> value == self.spec_chip_value(),
    {
        self.chips_before_bonus().checked_add(self.misc_bonus)
    }

    /// The chips of the rank as the enhancement leaves them, plus the bonus
    /// of the edition.
    fn chips_before_bonus(&self) -> (chips: u128)
        ensures
            chips == self.enhancement.enhance(self.rank.spec_chip_value())
                + self.edition.chip_bonus(),
            chips <= 100,
    {
        let base: u128 = self.rank.chip_value().into();

        let enhanced: u128 = match self.enhancement {
            CardEnhancement::Bonus => base + 30,
            CardEnhancement::Stone => 50,
            CardEnhancement::Steel => base,
            _ => base,
        };

        let edition_bonus: u128 = match self.edition {
            CardEdition::Foil => 50,
            CardEdition::Holographic => 10,
            CardEdition::Polychrome => 0,
            CardEdition::Base => 0,
        };

        enhanced + edition_bonus
    }

    /// A plain card of the given rank and suit, with an identity of its own.
    pub fn new(rank: Rank, suit: Suit) -> (card: Card)
        ensures
            card.is_plain(rank, suit),
    {
        Card {
            rank,
            suit,
            edition: CardEdition::Base,
            enhancement: CardEnhancement::NoEnhancement,
            seal: CardSeal::NoSeal,
            misc_bonus: 0,
            uuid: Uuid::now_v7(),
        }
    }
}

} // verus!
