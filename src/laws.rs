//! Properties of the ledger that relate its transactions, stated over the
//! view-level transitions that the executable transactions implement.
use vstd::prelude::*;

use crate::card::Card;
use crate::card::CardId;
use crate::pallet::lemma_move_unit;
use crate::pallet::AccountId;
use crate::pallet::Call;
use crate::pallet::Error;
use crate::pallet::PalletView;

verus! {

/// A successful transfer moves units of a card between accounts without
/// creating or destroying any: the total of every card is what it was.
pub proof fn lemma_transfer_conserves_totals(
    s: PalletView,
    who: AccountId,
    card_id: CardId,
    account: AccountId,
    c: CardId,
)
    requires
        s.wf(),
        s.transfer(who, card_id, account).1 is Ok,
    ensures
        s.transfer(who, card_id, account).0.total(c) == s.total(c),
{
    lemma_move_unit(s, who, account, card_id);
}

/// A successful purchase moves one unit from seller to buyer without
/// creating or destroying any: the total of every card is what it was.
pub proof fn lemma_buy_conserves_totals(
    s: PalletView,
    who: AccountId,
    card_id: CardId,
    seller: AccountId,
    settled: bool,
    c: CardId,
)
    requires
        s.wf(),
        s.buy(who, card_id, seller, settled).1 is Ok,
    ensures
        s.buy(who, card_id, seller, settled).0.total(c) == s.total(c),
{
    lemma_move_unit(s, seller, who, card_id);
}

/// Minting by an account that is not a creator fails with `NoPermission`
/// and leaves the id counter, the catalog and everything else unchanged.
pub proof fn lemma_mint_needs_creator(s: PalletView, who: AccountId, card: Card, amount: u16)
    requires
        !s.creators.contains(who),
    ensures
        s.create_card_pack(who, card, amount).1 == Err::<CardId, Error>(Error::NoPermission),
        s.create_card_pack(who, card, amount).0 == s,
{
}

/// `states` is a run of the ledger: each state follows from the one before
/// by the call at the same index, signed by the account paired with it.
pub open spec fn is_run(states: Seq<PalletView>, calls: Seq<(AccountId, Call)>) -> bool {
    &&& states.len() == calls.len() + 1
    &&& forall|i: int|
        0 <= i < calls.len() ==> states[i + 1] == #[trigger] states[i].apply(
            calls[i].0,
            calls[i].1,
        ).0
}

/// The id that the call at index `i` of a run returned, where that call
/// was a successful mint.
pub open spec fn minted_id(states: Seq<PalletView>, calls: Seq<(AccountId, Call)>, i: int) -> Option<
    CardId,
> {
    match calls[i].1 {
        Call::CreateCardPack(card, amount) => match states[i].create_card_pack(
            calls[i].0,
            card,
            amount,
        ).1 {
            Ok(id) => Some(id),
            Err(_) => None,
        },
        _ => None,
    }
}

/// No transaction lowers the id counter.
proof fn lemma_apply_keeps_counter(s: PalletView, who: AccountId, call: Call)
    ensures
        s.previous_card_id <= s.apply(who, call).0.previous_card_id,
{
}

proof fn lemma_run_counter_grows(states: Seq<PalletView>, calls: Seq<(AccountId, Call)>, a: int, b: int)
    requires
        is_run(states, calls),
        0 <= a <= b <= calls.len(),
    ensures
        states[a].previous_card_id <= states[b].previous_card_id,
    decreases b - a,
{
    if a < b {
        lemma_run_counter_grows(states, calls, a, b - 1);
        lemma_apply_keeps_counter(states[b - 1], calls[b - 1].0, calls[b - 1].1);
        assert(states[b] == states[b - 1].apply(calls[b - 1].0, calls[b - 1].1).0);
    }
}

/// Within a run, two different successful mints never return the same id.
pub proof fn lemma_minted_ids_distinct(
    states: Seq<PalletView>,
    calls: Seq<(AccountId, Call)>,
    i: int,
    j: int,
)
    requires
        is_run(states, calls),
        0 <= i < j < calls.len(),
        minted_id(states, calls, i) is Some,
        minted_id(states, calls, j) is Some,
    ensures
        minted_id(states, calls, i) != minted_id(states, calls, j),
{
    assert(states[i + 1] == states[i].apply(calls[i].0, calls[i].1).0);
    lemma_run_counter_grows(states, calls, i + 1, j);
}

/// A transfer that takes an account's last unit of a card succeeds and
/// leaves no record for that account and card: it is gone, not zero.
pub proof fn lemma_transfer_of_last_unit_removes_record(
    s: PalletView,
    who: AccountId,
    card_id: CardId,
    account: AccountId,
)
    requires
        s.wf(),
        s.quantity(who, card_id) == 1,
        who != account,
    ensures
        s.transfer(who, card_id, account).1 is Ok,
        !s.transfer(who, card_id, account).0.owners.contains_key((who, card_id)),
{
}

/// A purchase needs both a listing and a holding: with no listing it fails
/// with `CardNotForSale` even where the seller holds the card; with no
/// record for the seller it fails with `CardNotOwned`, listed or not; and
/// where a listing stands but the seller holds no unit, it fails with
/// `CardNotOwned` too. A failed purchase changes nothing.
pub proof fn lemma_buy_needs_listing_and_holding(
    s: PalletView,
    who: AccountId,
    card_id: CardId,
    seller: AccountId,
    settled: bool,
)
    requires
        s.wf(),
    ensures
        s.holds(seller, card_id) && !s.cards_for_sale.contains_key((card_id, seller)) ==> s.buy(
            who,
            card_id,
            seller,
            settled,
        ).1 == Err::<(), Error>(Error::CardNotForSale),
        !s.owners.contains_key((seller, card_id)) ==> s.buy(who, card_id, seller, settled).1
            == Err::<(), Error>(Error::CardNotOwned),
        s.quantity(seller, card_id) == 0 && s.cards_for_sale.contains_key((card_id, seller))
            ==> s.buy(who, card_id, seller, settled).1 == Err::<(), Error>(Error::CardNotOwned),
        s.buy(who, card_id, seller, settled).1 is Err ==> s.buy(who, card_id, seller, settled).0
            == s,
{
}

} // verus!
