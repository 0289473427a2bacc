use gamecards::card::BLACK;
use gamecards::card::RED;
use gamecards::is_creator;
use gamecards::AccountId;
use gamecards::Card;
use gamecards::CardType;
use gamecards::Error;
use gamecards::GenesisConfig;
use gamecards::Pallet;
use gamecards::H256;

const ALICE: AccountId = 1;
const BOB: AccountId = 2;
const MIRA: AccountId = 3;

fn new_test_ext() -> Pallet {
    GenesisConfig { creator: ALICE }.build_storage()
}

/// creates 10 cards
fn create_card_pack(cards: &mut Pallet, creator: AccountId) -> u32 {
    let card = new_card();
    assert!(cards.create_card_pack(creator, card.clone(), 10).is_ok());
    cards.previous_card_id()
}

fn new_card() -> Card {
    Card {
        name: vec![1, 4, 45, 3, 2],
        card_type: CardType::Creature,
        color: RED & BLACK,
        rules: vec![1, 4, 45, 3, 2],
        image: H256([56u8; 32]),
    }
}

#[test]
fn creator_creates_card_ok() {
    let mut cards = new_test_ext();
    let card = new_card();
    assert!(cards.create_card_pack(ALICE, card.clone(), 10).is_ok());
    let id = cards.previous_card_id();
    assert_eq!(cards.cards(id), Some(&card));
}

#[test]
fn only_creator_can_create_card_error() {
    let mut cards = new_test_ext();
    let id = cards.previous_card_id();
    let card = new_card();
    let before = cards.clone();
    assert_eq!(cards.create_card_pack(BOB, card.clone(), 10), Err(Error::NoPermission));
    assert_eq!(cards, before);
    assert_eq!(id, cards.previous_card_id());
}

#[test]
fn creator_assigns_new_creator_ok() {
    let mut cards = new_test_ext();
    assert_eq!(cards.set_creator(ALICE, BOB), Ok(()));
    assert!(is_creator(&cards, BOB));
    assert!(cards.create_card_pack(BOB, new_card(), 10).is_ok());
}

#[test]
fn only_creator_can_assign_crearor_error() {
    let mut cards = new_test_ext();
    let before = cards.clone();
    assert_eq!(cards.set_creator(BOB, MIRA), Err(Error::NoPermission));
    assert_eq!(cards, before);
    assert!(is_creator(&cards, MIRA) != true);
}

#[test]
fn creator_withdraws_creator_ok() {
    let mut cards = new_test_ext();
    assert_eq!(cards.set_creator(ALICE, BOB), Ok(()));
    assert!(is_creator(&cards, BOB));
    assert_eq!(cards.withdraw_creator(ALICE, BOB), Ok(()));
    assert!(is_creator(&cards, BOB) != true);
    let before = cards.clone();
    assert_eq!(cards.create_card_pack(BOB, new_card(), 10), Err(Error::NoPermission));
    assert_eq!(cards, before);
}

#[test]
fn only_creator_can_withdraw_crearor_error() {
    let mut cards = new_test_ext();
    assert_eq!(cards.set_creator(ALICE, BOB), Ok(()));
    assert!(is_creator(&cards, BOB));
    let before = cards.clone();
    assert_eq!(cards.withdraw_creator(MIRA, BOB), Err(Error::NoPermission));
    assert_eq!(cards, before);
    assert!(is_creator(&cards, BOB));
    assert!(cards.create_card_pack(BOB, new_card(), 10).is_ok());
}

#[test]
fn cannot_withdraw_crearor_non_creator_error() {
    let mut cards = new_test_ext();
    let before = cards.clone();
    assert_eq!(cards.withdraw_creator(ALICE, BOB), Err(Error::AccountNotCreator));
    assert_eq!(cards, before);
}

#[test]
fn cannot_assign_crearor_already_creator_error() {
    let mut cards = new_test_ext();
    assert_eq!(cards.set_creator(ALICE, BOB), Ok(()));
    assert!(is_creator(&cards, BOB));
    let before = cards.clone();
    assert_eq!(cards.set_creator(ALICE, BOB), Err(Error::AccountAlreadyCreator));
    assert_eq!(cards, before);
}

#[test]
fn transfer_card_ok() {
    let mut cards = new_test_ext();
    let card_id = create_card_pack(&mut cards, ALICE);
    let _ = cards.transfer(ALICE, card_id, BOB);

    assert_eq!(cards.owners(BOB, card_id), Some(1));
}

#[test]
fn transfer_card_not_owned_error() {
    let mut cards = new_test_ext();
    let card_id = create_card_pack(&mut cards, ALICE);
    let before = cards.clone();
    assert_eq!(cards.transfer(BOB, card_id, MIRA), Err(Error::CardNotOwned));
    assert_eq!(cards, before);

    assert_eq!(cards.owners(1, card_id), Some(10));
    assert_eq!(cards.owners(BOB, card_id), None);
    assert_eq!(cards.owners(MIRA, card_id), None);
}

#[test]
fn set_card_price_ok() {
    let mut cards = new_test_ext();
    let card_id = create_card_pack(&mut cards, ALICE);

    assert_eq!(cards.set_card_for_sale_with_price(ALICE, card_id, 100), Ok(()));
    assert_eq!(cards.cards_for_sale(card_id, ALICE), Some(100));

    assert_eq!(cards.set_card_for_sale_with_price(ALICE, card_id, 55), Ok(()));
    assert_eq!(cards.cards_for_sale(card_id, ALICE), Some(55));
}

#[test]
fn set_card_price_error() {
    let mut cards = new_test_ext();
    let card_id = create_card_pack(&mut cards, ALICE);

    let before = cards.clone();
    assert_eq!(
        cards.set_card_for_sale_with_price(BOB, card_id, 100),
        Err(Error::CardNotOwned)
    );
    assert_eq!(cards, before);
}

#[test]
fn remove_card_price_ok() {
    let mut cards = new_test_ext();
    let card_id = create_card_pack(&mut cards, ALICE);

    assert_eq!(cards.set_card_for_sale_with_price(ALICE, card_id, 100), Ok(()));
    assert_eq!(cards.cards_for_sale(card_id, ALICE), Some(100));

    assert_eq!(cards.remove_card_from_sale(ALICE, card_id), Ok(()));
    assert_eq!(cards.cards_for_sale(card_id, ALICE), None);
}

#[test]
fn remove_card_price_error() {
    let mut cards = new_test_ext();
    let card_id = create_card_pack(&mut cards, ALICE);

    assert_eq!(cards.set_card_for_sale_with_price(ALICE, card_id, 100), Ok(()));
    assert_eq!(cards.cards_for_sale(card_id, ALICE), Some(100));

    assert_eq!(cards.remove_card_from_sale(ALICE, card_id), Ok(()));
    assert_eq!(cards.cards_for_sale(card_id, ALICE), None);

    let before = cards.clone();
    assert_eq!(cards.remove_card_from_sale(ALICE, card_id), Err(Error::CardNotForSale));
    assert_eq!(cards, before);
    assert_eq!(cards.cards_for_sale(card_id, ALICE), None);

    assert_eq!(cards.remove_card_from_sale(BOB, card_id), Err(Error::CardNotForSale));
    assert_eq!(cards, before);
    assert_eq!(cards.cards_for_sale(card_id, BOB), None);
}

#[test]
fn create_and_buy_one_card_ok() {
    let mut cards = new_test_ext();
    let card = new_card();
    assert!(cards.create_card_pack(ALICE, card.clone(), 1).is_ok());
    let card_id = cards.previous_card_id();

    assert_eq!(cards.set_card_for_sale_with_price(ALICE, card_id, 100), Ok(()));
    assert_eq!(cards.cards_for_sale(card_id, ALICE), Some(100));

    assert_eq!(cards.buy(BOB, card_id, ALICE, true), Ok(()));
    assert_eq!(cards.cards_for_sale(card_id, ALICE), None);
    assert_eq!(cards.owners(ALICE, card_id), None);
    assert_eq!(cards.owners(BOB, card_id), Some(1));

    let before = cards.clone();
    assert_eq!(cards.buy(BOB, card_id, ALICE, true), Err(Error::CardNotOwned));
    assert_eq!(cards, before);
    assert_eq!(cards.cards_for_sale(card_id, ALICE), None);
    assert_eq!(cards.owners(ALICE, card_id), None);
    assert_eq!(cards.owners(BOB, card_id), Some(1));
}

#[test]
fn buy_card_ok() {
    let mut cards = new_test_ext();
    let card_id = create_card_pack(&mut cards, ALICE);

    assert_eq!(cards.set_card_for_sale_with_price(ALICE, card_id, 100), Ok(()));
    assert_eq!(cards.cards_for_sale(card_id, ALICE), Some(100));

    assert_eq!(cards.buy(BOB, card_id, ALICE, true), Ok(()));
    assert_eq!(cards.cards_for_sale(card_id, ALICE), None);
    assert_eq!(cards.owners(ALICE, card_id), Some(9));
    assert_eq!(cards.owners(BOB, card_id), Some(1));

    let before = cards.clone();
    assert_eq!(cards.buy(BOB, card_id, ALICE, true), Err(Error::CardNotForSale));
    assert_eq!(cards, before);
    assert_eq!(cards.cards_for_sale(card_id, ALICE), None);
    assert_eq!(cards.owners(ALICE, card_id), Some(9));
    assert_eq!(cards.owners(BOB, card_id), Some(1));
}

#[test]
fn buy_card_error() {
    let mut cards = new_test_ext();
    let card_id = create_card_pack(&mut cards, ALICE);

    let before = cards.clone();
    assert_eq!(cards.buy(100, card_id, ALICE, true), Err(Error::CardNotForSale));
    assert_eq!(cards, before);
    assert_eq!(cards.owners(ALICE, card_id), Some(10));
    assert_eq!(cards.owners(BOB, card_id), None);
}

#[test]
fn buy_card_after_transfer_ok() {
    let mut cards = new_test_ext();
    let card_id = create_card_pack(&mut cards, ALICE);

    assert_eq!(cards.set_card_for_sale_with_price(ALICE, card_id, 199), Ok(()));
    assert_eq!(cards.cards_for_sale(card_id, ALICE), Some(199));

    assert_eq!(cards.transfer(ALICE, card_id, BOB), Ok(()));
    assert_eq!(cards.set_card_for_sale_with_price(BOB, card_id, 100), Ok(()));
    assert_eq!(cards.cards_for_sale(card_id, BOB), Some(100));

    assert_eq!(cards.buy(MIRA, card_id, BOB, true), Ok(()));
    assert_eq!(cards.cards_for_sale(card_id, BOB), None);

    assert_eq!(cards.buy(MIRA, card_id, ALICE, true), Ok(()));
    assert_eq!(cards.cards_for_sale(card_id, ALICE), None);

    assert_eq!(cards.owners(ALICE, card_id), Some(8));
    assert_eq!(cards.owners(BOB, card_id), None);
    assert_eq!(cards.owners(MIRA, card_id), Some(2));
}

#[test]
fn buy_card_after_transfer_error() {
    let mut cards = new_test_ext();
    let card = new_card();
    assert!(cards.create_card_pack(ALICE, card.clone(), 1).is_ok());
    let card_id = cards.previous_card_id();

    assert_eq!(cards.set_card_for_sale_with_price(ALICE, card_id, 100), Ok(()));
    assert_eq!(cards.cards_for_sale(card_id, ALICE), Some(100));

    assert_eq!(cards.transfer(ALICE, card_id, BOB), Ok(()));

    let before = cards.clone();
    assert_eq!(cards.buy(BOB, card_id, ALICE, true), Err(Error::CardNotOwned));
    assert_eq!(cards, before);
}
