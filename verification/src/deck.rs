//! The deck: an ordered pile of cards whose last card is its top.

use crate::card::{Card, Rank, Suit};
use crate::identity::same_identity;
use crate::random::{random_between, shuffle_in_place};
use uuid::Uuid;
use vstd::prelude::*;

verus! {

/// Where the card of a suit and rank lies in a standard deck: the suits
/// follow one another, thirteen cards each, ranks ascending within a suit.
pub open spec fn standard_position(suit: Suit, rank: Rank) -> int {
    let before = match suit {
        Suit::Clubs => 0int,
        Suit::Diamonds => 13int,
        Suit::Hearts => 26int,
        Suit::Spades => 39int,
    };
    before + rank.ordinal() - 1
}

/// Whether `cards` are the 52 cards of a standard deck in their first order:
/// for every suit and rank the plain card of that suit and rank, at its
/// standard position.
pub open spec fn is_standard(cards: Seq<Card>) -> bool {
    &&& cards.len() == 52
    &&& forall|suit: Suit, rank: Rank| #[trigger]
        cards[standard_position(suit, rank)].is_plain(rank, suit)
}

/// Whether some card among `cards` is of the given suit and rank.
pub open spec fn holds_card_of(cards: Seq<Card>, suit: Suit, rank: Rank) -> bool {
    exists|i: int|
        0 <= i < cards.len() && (#[trigger] cards[i]).suit == suit && cards[i].rank == rank
}

/// Whether `cards` are 52 cards among which every suit and rank is found,
/// and none twice.
pub open spec fn is_complete(cards: Seq<Card>) -> bool {
    &&& cards.len() == 52
    &&& forall|suit: Suit, rank: Rank| #[trigger] holds_card_of(cards, suit, rank)
    &&& forall|i: int, j: int|
        0 <= i < cards.len() && 0 <= j < cards.len() && (#[trigger] cards[i]).suit == (
        #[trigger] cards[j]).suit && cards[i].rank == cards[j].rank ==> i == j
}

/// How many cards stay in a pile of `len` cards when `amount` are asked from
/// its top: all but `amount`, and none where `amount` is `len` or more.
pub open spec fn cards_left(len: nat, amount: nat) -> nat {
    if amount >= len {
        0
    } else {
        (len - amount) as nat
    }
}

/// The cards that stay when `amount` cards are taken from the top.
pub open spec fn below_top(cards: Seq<Card>, amount: nat) -> Seq<Card> {
    cards.subrange(0, cards_left(cards.len(), amount) as int)
}

/// The top `amount` cards, in the order in which they lie; all the cards
/// where there are no more than `amount`.
pub open spec fn top(cards: Seq<Card>, amount: nat) -> Seq<Card> {
    cards.subrange(cards_left(cards.len(), amount) as int, cards.len() as int)
}

/// The pile that comes of putting each of `added` on top of `cards`, one
/// after another, the first of them first.
pub open spec fn add_each(cards: Seq<Card>, added: Seq<Card>) -> Seq<Card>
    decreases added.len(),
{
    if added.len() == 0 {
        cards
    } else {
        add_each(cards.push(added[0]), added.drop_first())
    }
}

/// Whether `after` is what is left of `before` when `card`, the card at
/// position `at`, is taken out and the others keep their order.
pub open spec fn is_taken_at(before: Seq<Card>, at: int, card: Card, after: Seq<Card>) -> bool {
    &&& 0 <= at < before.len()
    &&& card == before[at]
    &&& after == before.remove(at)
}

/// Whether some card among `cards` has the identity `id`.
pub open spec fn holds_identity(cards: Seq<Card>, id: Uuid) -> bool {
    exists|i: int| 0 <= i < cards.len() && (#[trigger] cards[i]).uuid == id
}

/// Whether `i` is the first position among `cards` of a card with the
/// identity `id`.
pub open spec fn is_first_with_identity(cards: Seq<Card>, id: Uuid, i: int) -> bool {
    &&& 0 <= i < cards.len()
    &&& cards[i].uuid == id
    &&& forall|j: int| 0 <= j < i ==> (#[trigger] cards[j]).uuid != id
}

/// The first position among `cards` of a card with the identity `id`, where
/// there is one.
pub open spec fn position_of(cards: Seq<Card>, id: Uuid) -> int {
    choose|i: int| is_first_with_identity(cards, id, i)
}

/// An ordered pile of cards. The last card is the top of the deck.
pub struct Deck {
    pub cards: Vec<Card>,
}

impl View for Deck {
    type V = Seq<Card>;

    /// The cards of the deck from bottom to top.
    open spec fn view(&self) -> Seq<Card> {
        self.cards@
    }
}

impl Deck {
    /// A deck of the 52 standard cards, one for each suit and rank: clubs,
    /// diamonds, hearts, spades, each from ace to king, every card plain.
    pub fn new_standard() -> (deck: Deck)
        ensures
            is_standard(deck@),
            is_complete(deck@),
    {
        let cards = create_standard_deck();
        proof {
            lemma_standard_deck_is_complete(cards@);
        }
        Deck { cards }
    }

    /// Puts the cards in a random order. The same cards are in the deck
    /// afterwards, each as often as before.
    pub fn shuffle(&mut self)
        ensures
            final(self)@.to_multiset() == old(self)@.to_multiset(),
            final(self)@.len() == old(self)@.len(),
    {
        let mut generator = rand::rng();
        shuffle_in_place(&mut self.cards, &mut generator);
        proof {
            old(self)@.to_multiset_ensures();
            self@.to_multiset_ensures();
        }
    }

    /// Puts a card on top of the deck.
    pub fn add_card(&mut self, card: Card)
        ensures
            final(self)@ == old(self)@.push(card),
    {
        self.cards.push(card);
    }

    /// Takes `amount` cards from the top of the deck and hands them out in
    /// the order in which they lay. Where the deck has fewer, it hands out
    /// all it has and is empty afterwards.
    pub fn take_top(&mut self, amount: usize) -> (taken: Vec<Card>)
        ensures
            final(self)@ == below_top(old(self)@, amount as nat),
            taken@ == top(old(self)@, amount as nat),
            final(self)@ + taken@ == old(self)@,
            final(self)@.len() == cards_left(old(self)@.len(), amount as nat),
            taken@.len() == if amount <= old(self)@.len() {
                amount as nat
            } else {
                old(self)@.len()
            },
            amount == 0 ==> taken@.len() == 0 && final(self)@ == old(self)@,
    {
        let cut = self.cards.len().saturating_sub(amount);
        self.cards.split_off(cut)
    }

    /// Takes the card at `position`, counted from the bottom of the deck,
    /// out of the deck. The cards above it move down by one. Where the deck
    /// has no such position, nothing is taken.
    pub fn take_at(&mut self, position: usize) -> (taken: Option<Card>)
        ensures
            taken is Some <==> position < old(self)@.len(),
            taken matches Some(card) ==> is_taken_at(old(self)@, position as int, card, final(self)@),
            taken is None ==> final(self)@ == old(self)@,
    {
        if position < self.cards.len() {
            Some(self.cards.remove(position))
        } else {
            None
        }
    }

    /// Takes the card with the identity `uuid` out of the deck: the first
    /// such card from the bottom. The other cards keep their order. Where no
    /// card has that identity, nothing is taken and the deck stays as it is.
    pub fn take_specific(&mut self, uuid: &Uuid) -> (taken: Option<Card>)
        ensures
            taken is Some <==> holds_identity(old(self)@, *uuid),
            taken matches Some(card) ==> {
                let at = position_of(old(self)@, *uuid);
                &&& is_first_with_identity(old(self)@, *uuid, at)
                &&& is_taken_at(old(self)@, at, card, final(self)@)
                &&& card.uuid == *uuid
                &&& final(self)@.len() == old(self)@.len() - 1
            },
            taken is None ==> final(self)@ == old(self)@,
    {
        match self.find(uuid) {
            Some(position) => self.take_at(position),
            None => None,
        }
    }

    /// Takes a card from a random position out of the deck. The other cards
    /// keep their order. From an empty deck nothing is taken.
    pub fn take_random(&mut self) -> (taken: Option<Card>)
        ensures
            taken is Some <==> old(self)@.len() > 0,
            taken matches Some(card) ==> {
                &&& exists|at: int| #[trigger] is_taken_at(old(self)@, at, card, final(self)@)
                &&& old(self)@.contains(card)
                &&& final(self)@.len() == old(self)@.len() - 1
            },
            taken is None ==> final(self)@ == old(self)@,
    {
        if self.cards.is_empty() {
            None
        } else {
            let mut generator = rand::rng();
            let position = random_between(&mut generator, 0, self.cards.len());
            self.take_at(position)
        }
    }

    /// The number of cards in the deck.
    pub fn len(&self) -> (len: usize)
        ensures
            len == self@.len(),
    {
        self.cards.len()
    }

    /// Whether the deck has no cards.
    pub fn is_empty(&self) -> (empty: bool)
        ensures
            empty <==> self@.len() == 0,
    {
        self.cards.is_empty()
    }

    /// The cards of the deck from bottom to top, to be read only.
    pub fn cards(&self) -> (cards: &[Card])
        ensures
            cards@ == self@,
    {
        self.cards.as_slice()
    }

    /// The first position of a card with the identity `uuid`, if the deck
    /// holds one.
    fn find(&self, uuid: &Uuid) -> (found: Option<usize>)
        ensures
            found is Some <==> holds_identity(self@, *uuid),
            found matches Some(position) ==> position == position_of(self@, *uuid)
                && is_first_with_identity(self@, *uuid, position as int),
    {
        let mut position: usize = 0;
        while position < self.cards.len()
            invariant
                position <= self@.len(),
                forall|j: int| 0 <= j < position ==> (#[trigger] self@[j]).uuid != *uuid,
            decreases self@.len() - position,
        {
            if same_identity(&self.cards[position].uuid, uuid) {
                proof {
                    lemma_first_with_identity_is_unique(self@, *uuid, position as int);
                }
                return Some(position);
            }
            position += 1;
        }
        None
    }
}

/// At most one position is the first of a card with a given identity, so
/// `position_of` is that position wherever there is one.
pub proof fn lemma_first_with_identity_is_unique(cards: Seq<Card>, id: Uuid, i: int)
    requires
        is_first_with_identity(cards, id, i),
    ensures
        position_of(cards, id) == i,
        holds_identity(cards, id),
{
    let at = position_of(cards, id);
    assert(is_first_with_identity(cards, id, at));
    if at < i {
        assert(cards[at].uuid != id);
    } else if i < at {
        assert(cards[i].uuid != id);
    }
}

fn create_standard_deck() -> (deck: Vec<Card>)
    ensures
        is_standard(deck@),
{
    let mut deck: Vec<Card> = Vec::with_capacity(52);
    let suits = Suit::all();
    let ranks = Rank::all();

    let mut s: usize = 0;
    while s < 4
        invariant
            s <= 4,
            suits@ == Suit::spec_all(),
            ranks@ == Rank::spec_all(),
            deck@.len() == 13 * s,
            forall|i: int|
                0 <= i < deck@.len() ==> (#[trigger] deck@[i]).is_plain(
                    Rank::spec_all()[i % 13],
                    Suit::spec_all()[i / 13],
                ),
        decreases 4 - s,
    {
        let suit = suits[s];
        let mut r: usize = 0;
        while r < 13
            invariant
                s < 4,
                r <= 13,
                suit == Suit::spec_all()[s as int],
                ranks@ == Rank::spec_all(),
                deck@.len() == 13 * s + r,
                forall|i: int|
                    0 <= i < deck@.len() ==> (#[trigger] deck@[i]).is_plain(
                        Rank::spec_all()[i % 13],
                        Suit::spec_all()[i / 13],
                    ),
            decreases 13 - r,
        {
            deck.push(Card::new(ranks[r], suit));
            r += 1;
        }
        s += 1;
    }
    proof {
        assert forall|suit: Suit, rank: Rank| #[trigger]
            deck@[standard_position(suit, rank)].is_plain(rank, suit) by {
            let i = standard_position(suit, rank);
            assert(Rank::spec_all()[i % 13] == rank);
            assert(Suit::spec_all()[i / 13] == suit);
        }
    }
    deck
}

/// A standard deck has 52 cards; for every suit and rank one of them is of
/// that suit and rank; and no two of them are of the same suit and rank.
pub proof fn lemma_standard_deck_is_complete(cards: Seq<Card>)
    requires
        is_standard(cards),
    ensures
        is_complete(cards),
{
    assert forall|suit: Suit, rank: Rank| #[trigger] holds_card_of(cards, suit, rank) by {
        let at = standard_position(suit, rank);
        assert(cards[at].is_plain(rank, suit));
    }
    assert forall|i: int, j: int|
        0 <= i < cards.len() && 0 <= j < cards.len() && (#[trigger] cards[i]).suit == (
        #[trigger] cards[j]).suit && cards[i].rank == cards[j].rank implies i == j by {
        lemma_standard_position_reaches(i);
        lemma_standard_position_reaches(j);
        let (suit_i, rank_i) = choose|suit: Suit, rank: Rank| standard_position(suit, rank) == i;
        let (suit_j, rank_j) = choose|suit: Suit, rank: Rank| standard_position(suit, rank) == j;
        assert(cards[standard_position(suit_i, rank_i)].is_plain(rank_i, suit_i));
        assert(cards[standard_position(suit_j, rank_j)].is_plain(rank_j, suit_j));
    }
}

/// Every position of a standard deck is the standard position of some suit
/// and rank.
proof fn lemma_standard_position_reaches(i: int)
    requires
        0 <= i < 52,
    ensures
        exists|suit: Suit, rank: Rank| standard_position(suit, rank) == i,
{
    let suit = Suit::spec_all()[i / 13];
    let rank = Rank::spec_all()[i % 13];
    assert(standard_position(suit, rank) == i);
}

/// A complete deck stays complete in whatever order its cards are put: where
/// `after` holds the same cards as `before`, each as often, and `before` is
/// complete, `after` is complete too. So a standard deck is still complete
/// when it has been shuffled.
pub proof fn lemma_rearranged_deck_stays_complete(before: Seq<Card>, after: Seq<Card>)
    requires
        is_complete(before),
        after.to_multiset() == before.to_multiset(),
    ensures
        is_complete(after),
{
    before.to_multiset_ensures();
    after.to_multiset_ensures();
    assert(before.no_duplicates());
    before.lemma_multiset_has_no_duplicates();
    after.lemma_multiset_has_no_duplicates_conv();
    assert forall|suit: Suit, rank: Rank| #[trigger] holds_card_of(after, suit, rank) by {
        assert(holds_card_of(before, suit, rank));
        let i = choose|i: int|
            0 <= i < before.len() && (#[trigger] before[i]).suit == suit && before[i].rank == rank;
        assert(before.contains(before[i]));
        assert(after.to_multiset().count(before[i]) > 0);
        let j = choose|j: int| 0 <= j < after.len() && after[j] == before[i];
        assert(after[j].suit == suit && after[j].rank == rank);
    }
    assert forall|i: int, j: int|
        0 <= i < after.len() && 0 <= j < after.len() && (#[trigger] after[i]).suit == (
        #[trigger] after[j]).suit && after[i].rank == after[j].rank implies i == j by {
        assert(after.contains(after[i]));
        assert(after.contains(after[j]));
        assert(before.to_multiset().count(after[i]) > 0);
        assert(before.to_multiset().count(after[j]) > 0);
        let k = choose|k: int| 0 <= k < before.len() && before[k] == after[i];
        let l = choose|l: int| 0 <= l < before.len() && before[l] == after[j];
        assert(before[k].suit == before[l].suit && before[k].rank == before[l].rank);
        assert(k == l);
    }
}

/// Putting cards on a pile one after another makes the pile followed by
/// those cards.
pub proof fn lemma_add_each_appends(cards: Seq<Card>, added: Seq<Card>)
    ensures
        add_each(cards, added) == cards + added,
    decreases added.len(),
{
    if added.len() == 0 {
        assert(cards + added =~= cards);
    } else {
        lemma_add_each_appends(cards.push(added[0]), added.drop_first());
        assert(cards.push(added[0]) + added.drop_first() =~= cards + added);
    }
}

/// When cards are taken from the top of a pile and each of them is put back
/// on it, in whatever order `back` has them, the pile has as many cards as it
/// had and holds the same cards, each as often as before. Put back in the
/// order in which they were handed out, they make the pile as it was.
pub proof fn lemma_take_top_then_add_back(cards: Seq<Card>, amount: nat, back: Seq<Card>)
    requires
        back.to_multiset() == top(cards, amount).to_multiset(),
    ensures
        add_each(below_top(cards, amount), back).len() == cards.len(),
        add_each(below_top(cards, amount), back).to_multiset() == cards.to_multiset(),
        back == top(cards, amount) ==> add_each(below_top(cards, amount), back) == cards,
{
    let kept = below_top(cards, amount);
    let taken = top(cards, amount);
    lemma_add_each_appends(kept, back);
    assert(kept + taken =~= cards);
    vstd::seq_lib::lemma_multiset_commutative(kept, back);
    vstd::seq_lib::lemma_multiset_commutative(kept, taken);
    (kept + back).to_multiset_ensures();
    cards.to_multiset_ensures();
}

} // verus!
