use card_deck::card::{Card, CardEdition, CardEnhancement, CardSeal, Rank, Suit};
use uuid::Uuid;

fn card(
    rank: Rank,
    edition: CardEdition,
    enhancement: CardEnhancement,
    misc_bonus: u128,
) -> Card {
    Card {
        rank,
        suit: Suit::Hearts,
        edition,
        enhancement,
        seal: CardSeal::NoSeal,
        misc_bonus,
        uuid: Uuid::now_v7(),
    }
}

#[test]
fn suits_come_in_their_fixed_order() {
    assert_eq!(
        Suit::all(),
        [Suit::Clubs, Suit::Diamonds, Suit::Hearts, Suit::Spades]
    );
}

#[test]
fn ranks_come_in_ascending_order() {
    let ranks = Rank::all();
    assert_eq!(ranks.len(), 13);
    assert_eq!(ranks[0], Rank::Ace);
    assert_eq!(ranks[1], Rank::Two);
    assert_eq!(ranks[9], Rank::Ten);
    assert_eq!(ranks[10], Rank::Jack);
    assert_eq!(ranks[11], Rank::Queen);
    assert_eq!(ranks[12], Rank::King);
    for pair in ranks.windows(2) {
        assert!(pair[0] < pair[1]);
    }
}

#[test]
fn rank_order_is_total_with_ace_lowest() {
    let ranks = Rank::all();
    for (i, a) in ranks.iter().enumerate() {
        for (j, b) in ranks.iter().enumerate() {
            assert_eq!(a < b, i < j);
            assert_eq!(a == b, i == j);
            assert_eq!(a > b, i > j);
            assert_eq!(a.partial_cmp(b), Some(i.cmp(&j)));
            assert_eq!(a.cmp(b), i.cmp(&j));
        }
    }
    assert!(Rank::Ace < Rank::Two);
    assert!(Rank::Queen < Rank::King);
    assert!(Rank::King > Rank::Ace);
}

#[test]
fn rank_chip_table() {
    assert_eq!(Rank::Ace.chip_value(), 11);
    assert_eq!(Rank::Two.chip_value(), 2);
    assert_eq!(Rank::Three.chip_value(), 3);
    assert_eq!(Rank::Four.chip_value(), 4);
    assert_eq!(Rank::Five.chip_value(), 5);
    assert_eq!(Rank::Six.chip_value(), 6);
    assert_eq!(Rank::Seven.chip_value(), 7);
    assert_eq!(Rank::Eight.chip_value(), 8);
    assert_eq!(Rank::Nine.chip_value(), 9);
    assert_eq!(Rank::Ten.chip_value(), 10);
    assert_eq!(Rank::Jack.chip_value(), 10);
    assert_eq!(Rank::Queen.chip_value(), 10);
    assert_eq!(Rank::King.chip_value(), 10);
}

#[test]
fn new_card_is_plain() {
    let c = Card::new(Rank::Seven, Suit::Diamonds);
    assert_eq!(c.rank, Rank::Seven);
    assert_eq!(c.suit, Suit::Diamonds);
    assert_eq!(c.edition, CardEdition::Base);
    assert_eq!(c.enhancement, CardEnhancement::NoEnhancement);
    assert_eq!(c.seal, CardSeal::NoSeal);
    assert_eq!(c.misc_bonus, 0);
    assert_eq!(c.chip_value(), 7);
}

#[test]
fn new_cards_have_identities_of_their_own() {
    let a = Card::new(Rank::Ace, Suit::Spades);
    let b = Card::new(Rank::Ace, Suit::Spades);
    assert_ne!(a.uuid, b.uuid);
}

#[test]
fn clone_keeps_every_field() {
    let a = Card {
        rank: Rank::Queen,
        suit: Suit::Clubs,
        edition: CardEdition::Polychrome,
        enhancement: CardEnhancement::Lucky,
        seal: CardSeal::Purple,
        misc_bonus: 17,
        uuid: Uuid::now_v7(),
    };
    let b = a.clone();
    assert_eq!(b.rank, Rank::Queen);
    assert_eq!(b.suit, Suit::Clubs);
    assert_eq!(b.edition, CardEdition::Polychrome);
    assert_eq!(b.enhancement, CardEnhancement::Lucky);
    assert_eq!(b.seal, CardSeal::Purple);
    assert_eq!(b.misc_bonus, 17);
    assert_eq!(b.uuid, a.uuid);
}

#[test]
fn chips_of_a_plain_ace() {
    let c = card(Rank::Ace, CardEdition::Base, CardEnhancement::NoEnhancement, 0);
    assert_eq!(c.chip_value(), 11);
}

#[test]
fn chips_of_a_bonus_ten() {
    let c = card(Rank::Ten, CardEdition::Base, CardEnhancement::Bonus, 0);
    assert_eq!(c.chip_value(), 40);
}

#[test]
fn chips_of_a_foil_stone_five() {
    let c = card(Rank::Five, CardEdition::Foil, CardEnhancement::Stone, 0);
    assert_eq!(c.chip_value(), 100);
}

#[test]
fn chips_of_a_holographic_king_with_bonus() {
    let c = card(Rank::King, CardEdition::Holographic, CardEnhancement::NoEnhancement, 5);
    assert_eq!(c.chip_value(), 25);
}

#[test]
fn polychrome_adds_no_chips() {
    let c = card(Rank::Nine, CardEdition::Polychrome, CardEnhancement::NoEnhancement, 0);
    assert_eq!(c.chip_value(), 9);
}

#[test]
fn stone_replaces_the_chips_of_the_rank() {
    for rank in Rank::all() {
        let c = card(rank, CardEdition::Base, CardEnhancement::Stone, 0);
        assert_eq!(c.chip_value(), 50);
    }
}

#[test]
fn bonus_adds_thirty_to_the_chips_of_the_rank() {
    for rank in Rank::all() {
        let c = card(rank, CardEdition::Base, CardEnhancement::Bonus, 0);
        assert_eq!(c.chip_value(), u128::from(rank.chip_value()) + 30);
    }
}

#[test]
fn other_enhancements_leave_the_chips() {
    let inert = [
        CardEnhancement::NoEnhancement,
        CardEnhancement::Mult,
        CardEnhancement::Wild,
        CardEnhancement::Glass,
        CardEnhancement::Steel,
        CardEnhancement::Gold,
        CardEnhancement::Lucky,
    ];
    for enhancement in inert {
        let c = card(Rank::Eight, CardEdition::Base, enhancement, 0);
        assert_eq!(c.chip_value(), 8);
    }
}

#[test]
fn seal_does_not_score() {
    for seal in [
        CardSeal::NoSeal,
        CardSeal::Red,
        CardSeal::Blue,
        CardSeal::Gold,
        CardSeal::Purple,
    ] {
        let mut c = card(Rank::Jack, CardEdition::Foil, CardEnhancement::Bonus, 3);
        c.seal = seal;
        assert_eq!(c.chip_value(), 93);
    }
}

#[test]
fn own_bonus_adds_whatever_the_enhancement() {
    let c = card(Rank::Two, CardEdition::Base, CardEnhancement::Stone, 7);
    assert_eq!(c.chip_value(), 57);
    let c = card(Rank::Two, CardEdition::Holographic, CardEnhancement::Glass, 7);
    assert_eq!(c.chip_value(), 19);
}

#[test]
fn chips_go_beyond_thirty_two_bits() {
    let big: u128 = 1 << 100;
    let c = card(Rank::Ace, CardEdition::Foil, CardEnhancement::Bonus, big);
    assert_eq!(c.chip_value(), big + 91);
}

#[test]
fn chips_follow_the_fields_as_they_are() {
    let mut c = Card::new(Rank::Four, Suit::Clubs);
    assert_eq!(c.chip_value(), 4);
    c.enhancement = CardEnhancement::Bonus;
    assert_eq!(c.chip_value(), 34);
    c.edition = CardEdition::Foil;
    assert_eq!(c.chip_value(), 84);
    c.misc_bonus = 16;
    assert_eq!(c.chip_value(), 100);
    c.enhancement = CardEnhancement::Stone;
    assert_eq!(c.chip_value(), 116);
}

#[test]
fn checked_chips_agree_where_they_fit() {
    let c = card(Rank::King, CardEdition::Holographic, CardEnhancement::NoEnhancement, 5);
    assert_eq!(c.checked_chip_value(), Some(25));
    let c = card(Rank::Five, CardEdition::Foil, CardEnhancement::Stone, u128::MAX - 100);
    assert_eq!(c.checked_chip_value(), Some(u128::MAX));
    assert_eq!(c.chip_value(), u128::MAX);
}

#[test]
fn checked_chips_are_none_beyond_the_largest_number() {
    let c = card(Rank::Five, CardEdition::Foil, CardEnhancement::Stone, u128::MAX - 99);
    assert_eq!(c.checked_chip_value(), None);
    let c = card(Rank::Two, CardEdition::Base, CardEnhancement::NoEnhancement, u128::MAX - 1);
    assert_eq!(c.checked_chip_value(), None);
    let c = card(Rank::Two, CardEdition::Base, CardEnhancement::NoEnhancement, u128::MAX - 2);
    assert_eq!(c.checked_chip_value(), Some(u128::MAX));
}
