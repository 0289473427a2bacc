use vstd::prelude::*;

verus! {

/// Identifier of a card definition, handed out by the id counter.
pub type CardId = u32;

/// Bitmask over the five colours; `COLORLESS` is the empty mask.
pub type Color = u8;

pub const WHITE: Color = 1;
pub const BLACK: Color = 2;
pub const RED: Color = 4;
pub const GREEN: Color = 8;
pub const BLUE: Color = 16;
pub const COLORLESS: Color = 0;

/// A 256-bit content hash, kept as its 32 bytes.
#[derive(Clone, Copy, Debug, PartialEq, Eq, Hash)]
pub struct H256(pub [u8; 32]);

/// Unique identity of a card's artwork.
pub type CardUniqueIdentity = H256;

#[derive(Clone, Copy, Debug, PartialEq, Eq, Structural)]
pub enum CardType {
    Sorcery,
    Instant,
    Creature,
    Aura,
    Land,
}

impl Default for CardType {
    fn default() -> (r: Self)
        ensures
            r == CardType::Sorcery,
    {
        CardType::Sorcery
    }
}

/// Immutable definition of a card, written once when it is minted.
#[derive(Clone, Debug, PartialEq)]
pub struct Card {
    pub name: Vec<u8>,
    pub card_type: CardType,
    pub color: Color,
    pub rules: Vec<u8>,
    pub image: H256,
}

} // verus!
