//! A ledger of trading cards: creators mint card definitions in batches,
//! accounts hold and give away copies, and a marketplace lists and sells
//! single copies. Every transaction either applies in full or changes nothing.
pub mod card;
pub mod laws;
pub mod pallet;
pub mod totals;

pub use card::Card;
pub use card::CardId;
pub use card::CardType;
pub use card::Color;
pub use card::H256;
pub use pallet::is_creator;
pub use pallet::AccountId;
pub use pallet::Balance;
pub use pallet::Call;
pub use pallet::DefaultPreviousId;
pub use pallet::Error;
pub use pallet::Event;
pub use pallet::GenesisConfig;
pub use pallet::Pallet;
