//! A playing-card deck for a card game: the attributes of a card, the chips
//! a card scores, and a deck that can be shuffled, drawn from and added to.

pub mod card;
pub mod deck;
pub mod identity;
pub mod random;
