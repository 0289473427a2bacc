//! The card ledger: creator registry, card catalog, ownership records and
//! sale listings, with the transactions that change them.
use vstd::prelude::*;

use std::collections::BTreeMap;
use std::collections::BTreeSet;

use crate::card::Card;
use crate::card::CardId;
use crate::totals::card_total;
use crate::totals::lemma_holding_within_total;
use crate::totals::lemma_total_insert;
use crate::totals::lemma_total_remove;
use crate::totals::lemma_total_unheld;
use crate::totals::lemma_two_holdings_within_total;
use crate::totals::OwnerKey;

verus! {

/// An account, as the host identifies the signer of a call.
pub type AccountId = u64;

/// An amount of the host's currency.
pub type Balance = u64;

/// Notifications that the transactions emit.
#[derive(Clone, Copy, Debug, PartialEq, Eq, Structural)]
pub enum Event {
    /// creator, card id, amount
    CardCreated(AccountId, CardId, u16),
    /// old owner, card id, new owner
    CardTransferred(AccountId, CardId, AccountId),
    /// assigner, new creator
    CreatorAssigned(AccountId, AccountId),
    /// assigner, account that is no longer a creator
    CreatorWithdrawn(AccountId, AccountId),
    /// card id, owner, price
    CardSetForSale(CardId, AccountId, Balance),
}

/// Why a transaction was rejected. A rejected transaction changes nothing.
#[derive(Clone, Copy, Debug, PartialEq, Eq, Structural)]
pub enum Error {
    /// A value that should be there is missing.
    NoneValue,
    /// Every card id has been handed out.
    IdStorageOverflow,
    /// The signer is not a creator.
    NoPermission,
    /// The account is a creator already.
    AccountAlreadyCreator,
    /// The account is not a creator.
    AccountNotCreator,
    /// The account holds no unit of the card.
    CardNotOwned,
    /// The card is not listed for sale by that seller.
    CardNotForSale,
    /// The host could not move the price from buyer to seller.
    SettlementFailed,
}

/// The id counter's value before any card is minted.
#[allow(non_snake_case)]
pub fn DefaultPreviousId() -> (r: CardId)
    ensures
        r == 0,
{
    0
}

/// The ledger's state as mathematical values.
pub struct PalletView {
    /// Accounts that may mint cards and administer creators.
    pub creators: Set<AccountId>,
    /// Card definitions by id.
    pub cards: Map<CardId, Card>,
    /// Units held, by holder and card.
    pub owners: Map<OwnerKey, u16>,
    /// Asking prices, by card and seller.
    pub cards_for_sale: Map<(CardId, AccountId), Balance>,
    /// The last card id handed out; 0 before the first mint.
    pub previous_card_id: CardId,
    /// Notifications emitted so far, oldest first.
    pub events: Seq<Event>,
}

/// A transaction, as a signer submits it: the operation and its arguments.
#[derive(Clone, Debug, PartialEq)]
pub enum Call {
    /// Make the account a creator.
    SetCreator(AccountId),
    /// Take creator rights from the account.
    WithdrawCreator(AccountId),
    /// Mint a card with the given number of units.
    CreateCardPack(Card, u16),
    /// List the card for sale at the price.
    SetCardForSaleWithPrice(CardId, Balance),
    /// Withdraw the signer's listing of the card.
    RemoveCardFromSale(CardId),
    /// Buy one unit of the card from the seller; the flag says whether the
    /// price was settled.
    Buy(CardId, AccountId, bool),
    /// Give one unit of the card to the account.
    Transfer(CardId, AccountId),
}

/// The ownership records after `from` gives up one unit of `card`: its
/// record drops by one and disappears at zero.
pub open spec fn take_unit(owners: Map<OwnerKey, u16>, from: AccountId, card: CardId) -> Map<
    OwnerKey,
    u16,
> {
    let left = (owners[(from, card)] - 1) as u16;
    if left == 0 {
        owners.remove((from, card))
    } else {
        owners.insert((from, card), left)
    }
}

/// The ownership records after `to` receives one unit of `card`: its record
/// grows by one, starting at one where there was none.
pub open spec fn give_unit(owners: Map<OwnerKey, u16>, to: AccountId, card: CardId) -> Map<
    OwnerKey,
    u16,
> {
    if owners.contains_key((to, card)) {
        owners.insert((to, card), (owners[(to, card)] + 1) as u16)
    } else {
        owners.insert((to, card), 1)
    }
}

/// The ownership records after one unit of `card` moves from `from` to `to`.
pub open spec fn move_unit(
    owners: Map<OwnerKey, u16>,
    from: AccountId,
    to: AccountId,
    card: CardId,
) -> Map<OwnerKey, u16> {
    give_unit(take_unit(owners, from, card), to, card)
}

/// Moving a unit that `from` holds leaves every card's total as it was,
/// keeps records to ids handed out, and the receiving record never overflows.
pub proof fn lemma_move_unit(s: PalletView, from: AccountId, to: AccountId, card: CardId)
    requires
        s.wf(),
        s.holds(from, card),
    ensures
        take_unit(s.owners, from, card).contains_key((to, card)) ==> take_unit(
            s.owners,
            from,
            card,
        )[(to, card)] < u16::MAX,
        move_unit(s.owners, from, to, card).dom().finite(),
        forall|c: CardId|
            #[trigger] card_total(move_unit(s.owners, from, to, card), c) == card_total(
                s.owners,
                c,
            ),
        forall|k: OwnerKey| #[trigger]
            move_unit(s.owners, from, to, card).contains_key(k) ==> 1 <= k.1 <= s.previous_card_id,
{
    let o = s.owners;
    let fk = (from, card);
    let tk = (to, card);
    let drained = take_unit(o, from, card);
    let moved = move_unit(o, from, to, card);
    assert(card_total(o, card) <= u16::MAX);
    lemma_holding_within_total(o, fk);
    if o.contains_key(tk) && tk != fk {
        lemma_two_holdings_within_total(o, fk, tk);
    }
    assert forall|c: CardId| #[trigger] card_total(moved, c) == card_total(o, c) by {
        if o[fk] - 1 == 0 {
            lemma_total_remove(o, fk, c);
        } else {
            lemma_total_insert(o, fk, (o[fk] - 1) as u16, c);
        }
        if drained.contains_key(tk) {
            lemma_total_insert(drained, tk, (drained[tk] + 1) as u16, c);
        } else {
            lemma_total_insert(drained, tk, 1, c);
        }
    }
}

impl PalletView {
    /// The state's invariant: records and catalog entries only for ids
    /// handed out, and no card with more units in all than one
    /// 16-bit quantity can hold.
    pub open spec fn wf(self) -> bool {
        &&& self.owners.dom().finite()
        &&& forall|k: OwnerKey| #[trigger]
            self.owners.contains_key(k) ==> 1 <= k.1
                <= self.previous_card_id
        &&& forall|c: CardId| #[trigger]
            self.cards.contains_key(c) <==> 1 <= c <= self.previous_card_id
        &&& forall|c: CardId| #[trigger] card_total(self.owners, c) <= u16::MAX
    }

    /// Units of `card` that `account` holds.
    pub open spec fn quantity(self, account: AccountId, card: CardId) -> nat {
        if self.owners.contains_key((account, card)) {
            self.owners[(account, card)] as nat
        } else {
            0
        }
    }

    /// Units of `card` held over all accounts.
    pub open spec fn total(self, card: CardId) -> int {
        card_total(self.owners, card)
    }

    /// `account` holds a record of at least one unit of `card`.
    pub open spec fn holds(self, account: AccountId, card: CardId) -> bool {
        self.owners.contains_key((account, card)) && self.owners[(account, card)] >= 1
    }

    /// Only a creator may add one, and only an account that is not one yet.
    pub open spec fn set_creator(self, who: AccountId, id: AccountId) -> (Self, Result<(), Error>) {
        if !self.creators.contains(who) {
            (self, Err(Error::NoPermission))
        } else if self.creators.contains(id) {
            (self, Err(Error::AccountAlreadyCreator))
        } else {
            (
                PalletView {
                    creators: self.creators.insert(id),
                    events: self.events.push(Event::CreatorAssigned(who, id)),
                    ..self
                },
                Ok(()),
            )
        }
    }

    /// Only a creator may withdraw one, and only an account that is one.
    pub open spec fn withdraw_creator(self, who: AccountId, id: AccountId) -> (
        Self,
        Result<(), Error>,
    ) {
        if !self.creators.contains(who) {
            (self, Err(Error::NoPermission))
        } else if !self.creators.contains(id) {
            (self, Err(Error::AccountNotCreator))
        } else {
            (
                PalletView {
                    creators: self.creators.remove(id),
                    events: self.events.push(Event::CreatorWithdrawn(who, id)),
                    ..self
                },
                Ok(()),
            )
        }
    }

    /// Minting takes the next id, writes the card under it and gives the
    /// creator a record of `amount` units, zero included.
    pub open spec fn create_card_pack(self, who: AccountId, card: Card, amount: u16) -> (
        Self,
        Result<CardId, Error>,
    ) {
        if !self.creators.contains(who) {
            (self, Err(Error::NoPermission))
        } else if self.previous_card_id == u32::MAX {
            (self, Err(Error::IdStorageOverflow))
        } else {
            let id = (self.previous_card_id + 1) as CardId;
            (
                PalletView {
                    cards: self.cards.insert(id, card),
                    owners: self.owners.insert((who, id), amount),
                    previous_card_id: id,
                    events: self.events.push(Event::CardCreated(who, id, amount)),
                    ..self
                },
                Ok(id),
            )
        }
    }

    /// Only a holder may list; listing again replaces the price.
    pub open spec fn set_card_for_sale_with_price(
        self,
        who: AccountId,
        card_id: CardId,
        price: Balance,
    ) -> (Self, Result<(), Error>) {
        if !self.holds(who, card_id) {
            (self, Err(Error::CardNotOwned))
        } else {
            (
                PalletView {
                    cards_for_sale: self.cards_for_sale.insert((card_id, who), price),
                    events: self.events.push(Event::CardSetForSale(card_id, who, price)),
                    ..self
                },
                Ok(()),
            )
        }
    }

    /// Only an existing listing can be withdrawn.
    pub open spec fn remove_card_from_sale(self, who: AccountId, card_id: CardId) -> (
        Self,
        Result<(), Error>,
    ) {
        if !self.cards_for_sale.contains_key((card_id, who)) {
            (self, Err(Error::CardNotForSale))
        } else {
            (
                PalletView {
                    cards_for_sale: self.cards_for_sale.remove((card_id, who)),
                    ..self
                },
                Ok(()),
            )
        }
    }

    /// Only a holder may give a unit away.
    pub open spec fn transfer(self, who: AccountId, card_id: CardId, account: AccountId) -> (
        Self,
        Result<(), Error>,
    ) {
        if !self.holds(who, card_id) {
            (self, Err(Error::CardNotOwned))
        } else {
            (
                PalletView {
                    owners: move_unit(self.owners, who, account, card_id),
                    events: self.events.push(Event::CardTransferred(who, card_id, account)),
                    ..self
                },
                Ok(()),
            )
        }
    }

    /// The state and outcome of the transaction `call` signed by `who`.
    pub open spec fn apply(self, who: AccountId, call: Call) -> (Self, Result<(), Error>) {
        match call {
            Call::SetCreator(id) => self.set_creator(who, id),
            Call::WithdrawCreator(id) => self.withdraw_creator(who, id),
            Call::CreateCardPack(card, amount) => {
                let (t, r) = self.create_card_pack(who, card, amount);
                (
                    t,
                    match r {
                        Ok(_) => Ok(()),
                        Err(e) => Err(e),
                    },
                )
            },
            Call::SetCardForSaleWithPrice(card_id, price) => self.set_card_for_sale_with_price(
                who,
                card_id,
                price,
            ),
            Call::RemoveCardFromSale(card_id) => self.remove_card_from_sale(who, card_id),
            Call::Buy(card_id, seller, settled) => self.buy(who, card_id, seller, settled),
            Call::Transfer(card_id, account) => self.transfer(who, card_id, account),
        }
    }

    /// The price a buyer owes `seller` for one unit of `card_id`, or why
    /// the purchase cannot go ahead.
    pub open spec fn sale_price(self, card_id: CardId, seller: AccountId) -> Result<
        Balance,
        Error,
    > {
        if !self.owners.contains_key((seller, card_id)) {
            Err(Error::CardNotOwned)
        } else if !self.cards_for_sale.contains_key((card_id, seller)) {
            Err(Error::CardNotForSale)
        } else if self.owners[(seller, card_id)] == 0 {
            Err(Error::CardNotOwned)
        } else {
            Ok(self.cards_for_sale[(card_id, seller)])
        }
    }

    /// A purchase: the listing goes, one unit moves from `seller` to `who`.
    /// `settled` tells whether the host moved the price from `who` to `seller`.
    pub open spec fn buy(self, who: AccountId, card_id: CardId, seller: AccountId, settled: bool) -> (
        Self,
        Result<(), Error>,
    ) {
        match self.sale_price(card_id, seller) {
            Err(e) => (self, Err(e)),
            Ok(_) => if !settled {
                (self, Err(Error::SettlementFailed))
            } else {
                (
                    PalletView {
                        owners: move_unit(self.owners, seller, who, card_id),
                        cards_for_sale: self.cards_for_sale.remove((card_id, seller)),
                        events: self.events.push(Event::CardTransferred(seller, card_id, who)),
                        ..self
                    },
                    Ok(()),
                )
            },
        }
    }
}

/// The ledger: every store that the transactions read and write.
#[derive(Clone, Debug, PartialEq)]
pub struct Pallet {
    creators: BTreeSet<AccountId>,
    cards: BTreeMap<CardId, Card>,
    owners: BTreeMap<OwnerKey, u16>,
    cards_for_sale: BTreeMap<(CardId, AccountId), Balance>,
    previous_card_id: CardId,
    events: Vec<Event>,
}

impl View for Pallet {
    type V = PalletView;

    closed spec fn view(&self) -> PalletView {
        PalletView {
            creators: self.creators@,
            cards: self.cards@,
            owners: self.owners@,
            cards_for_sale: self.cards_for_sale@,
            previous_card_id: self.previous_card_id,
            events: self.events@,
        }
    }
}

/// Whether `acc` may mint cards and administer creators.
pub fn is_creator(pallet: &Pallet, acc: AccountId) -> (r: bool)
    ensures
        r == pallet@.creators.contains(acc),
{
    pallet.is_creator(acc)
}

impl Pallet {
    /// The ledger's invariant, which every transaction keeps.
    pub open spec fn wf(&self) -> bool {
        self@.wf()
    }

    fn deposit_event(&mut self, event: Event)
        ensures
            final(self)@ == (PalletView { events: old(self)@.events.push(event), ..old(self)@ }),
    {
        self.events.push(event);
    }

    /// Whether `acc` may mint cards and administer creators.
    pub fn is_creator(&self, acc: AccountId) -> (r: bool)
        ensures
            r == self@.creators.contains(acc),
    {
        self.creators.contains(&acc)
    }

    /// The card minted under `id`, if any.
    pub fn cards(&self, id: CardId) -> (r: Option<&Card>)
        ensures
            r == (if self@.cards.contains_key(id) {
                Some(&self@.cards[id])
            } else {
                None
            }),
    {
        self.cards.get(&id)
    }

    /// How many units of `card_id` `acc` holds; `None` where it holds none.
    pub fn owners(&self, acc: AccountId, card_id: CardId) -> (r: Option<u16>)
        ensures
            r == (if self@.owners.contains_key((acc, card_id)) {
                Some(self@.owners[(acc, card_id)])
            } else {
                None
            }),
    {
        match self.owners.get(&(acc, card_id)) {
            Some(q) => Some(*q),
            None => None,
        }
    }

    /// The price at which `seller` offers `card_id`, if it does.
    pub fn cards_for_sale(&self, card_id: CardId, seller: AccountId) -> (r: Option<Balance>)
        ensures
            r == (if self@.cards_for_sale.contains_key((card_id, seller)) {
                Some(self@.cards_for_sale[(card_id, seller)])
            } else {
                None
            }),
    {
        match self.cards_for_sale.get(&(card_id, seller)) {
            Some(p) => Some(*p),
            None => None,
        }
    }

    /// The last card id handed out; 0 before the first mint.
    pub fn previous_card_id(&self) -> (r: CardId)
        ensures
            r == self@.previous_card_id,
    {
        self.previous_card_id
    }

    /// The notifications emitted so far, oldest first.
    pub fn events(&self) -> (r: &Vec<Event>)
        ensures
            r@ == self@.events,
    {
        &self.events
    }

    /// Mints a new card: takes the next id, stores `card` under it and gives
    /// `who` `amount` units. Only a creator may mint.
    pub fn create_card_pack(&mut self, who: AccountId, card: Card, amount: u16) -> (r: Result<
        CardId,
        Error,
    >)
        requires
            old(self).wf(),
        ensures
            final(self).wf(),
            (final(self)@, r) == old(self)@.create_card_pack(who, card, amount),
            !old(self)@.creators.contains(who) ==> r == Err::<CardId, Error>(Error::NoPermission)
                && final(self)@ == old(self)@,
            r matches Ok(id) ==> {
                &&& old(self)@.previous_card_id < id
                &&& id == final(self)@.previous_card_id
                &&& !old(self)@.cards.contains_key(id)
                &&& final(self)@.cards[id] == card
                &&& final(self)@.quantity(who, id) == amount
            },
    {
        if !self.creators.contains(&who) {
            return Err(Error::NoPermission);
        }
        let id = match self.previous_card_id.checked_add(1) {
            Some(id) => id,
            None => return Err(Error::IdStorageOverflow),
        };
        proof {
            lemma_create_card_pack_wf(self@, who, card, amount);
        }
        self.cards.insert(id, card);
        self.owners.insert((who, id), amount);
        self.previous_card_id = id;
        self.deposit_event(Event::CardCreated(who, id, amount));
        Ok(id)
    }

    /// Moves one unit of `card_id` from `from` to `to`.
    fn move_one_unit(&mut self, from: AccountId, to: AccountId, card_id: CardId)
        requires
            old(self).wf(),
            old(self)@.holds(from, card_id),
        ensures
            final(self)@ == (PalletView {
                owners: move_unit(old(self)@.owners, from, to, card_id),
                ..old(self)@
            }),
    {
        proof {
            lemma_move_unit(self@, from, to, card_id);
        }
        let left: u16 = match self.owners.get(&(from, card_id)) {
            Some(q) => *q - 1,
            None => 0,
        };
        if left == 0 {
            self.owners.remove(&(from, card_id));
        } else {
            self.owners.insert((from, card_id), left);
        }
        let received: u16 = match self.owners.get(&(to, card_id)) {
            Some(q) => *q + 1,
            None => 1,
        };
        self.owners.insert((to, card_id), received);
    }

    /// Gives one unit of `card_id` from `who` to `account`, free of charge.
    pub fn transfer(&mut self, who: AccountId, card_id: CardId, account: AccountId) -> (r: Result<
        (),
        Error,
    >)
        requires
            old(self).wf(),
        ensures
            final(self).wf(),
            (final(self)@, r) == old(self)@.transfer(who, card_id, account),
            r is Ok ==> forall|c: CardId| #[trigger]
                final(self)@.total(c) == old(self)@.total(c),
            r is Ok && old(self)@.quantity(who, card_id) == 1 && who != account
                ==> !final(self)@.owners.contains_key((who, card_id)),
    {
        let owned: u16 = match self.owners.get(&(who, card_id)) {
            Some(q) => *q,
            None => return Err(Error::CardNotOwned),
        };
        if owned.checked_sub(1).is_none() {
            return Err(Error::CardNotOwned);
        }
        proof {
            lemma_move_unit(self@, who, account, card_id);
        }
        self.move_one_unit(who, account, card_id);
        self.deposit_event(Event::CardTransferred(who, card_id, account));
        Ok(())
    }

    /// Offers `card_id` for sale at `price`, replacing any earlier price.
    /// Only an account that holds the card may list it.
    pub fn set_card_for_sale_with_price(
        &mut self,
        who: AccountId,
        card_id: CardId,
        price: Balance,
    ) -> (r: Result<(), Error>)
        requires
            old(self).wf(),
        ensures
            final(self).wf(),
            (final(self)@, r) == old(self)@.set_card_for_sale_with_price(who, card_id, price),
    {
        match self.owners.get(&(who, card_id)) {
            Some(q) => {
                if *q == 0 {
                    return Err(Error::CardNotOwned);
                }
            },
            None => return Err(Error::CardNotOwned),
        }
        self.cards_for_sale.insert((card_id, who), price);
        self.deposit_event(Event::CardSetForSale(card_id, who, price));
        Ok(())
    }

    /// Withdraws `who`'s offer of `card_id`.
    pub fn remove_card_from_sale(&mut self, who: AccountId, card_id: CardId) -> (r: Result<
        (),
        Error,
    >)
        requires
            old(self).wf(),
        ensures
            final(self).wf(),
            (final(self)@, r) == old(self)@.remove_card_from_sale(who, card_id),
    {
        if !self.cards_for_sale.contains_key(&(card_id, who)) {
            return Err(Error::CardNotForSale);
        }
        self.cards_for_sale.remove(&(card_id, who));
        Ok(())
    }

    /// The price that a buyer must settle with `seller` before buying one
    /// unit of `card_id` from it, or why no purchase can go ahead.
    pub fn sale_price(&self, card_id: CardId, seller: AccountId) -> (r: Result<Balance, Error>)
        ensures
            r == self@.sale_price(card_id, seller),
    {
        let held: u16 = match self.owners.get(&(seller, card_id)) {
            Some(q) => *q,
            None => return Err(Error::CardNotOwned),
        };
        let price: Balance = match self.cards_for_sale.get(&(card_id, seller)) {
            Some(p) => *p,
            None => return Err(Error::CardNotForSale),
        };
        if held == 0 {
            return Err(Error::CardNotOwned);
        }
        Ok(price)
    }

    /// `who` buys one unit of `card_id` from `seller` at its listed price.
    /// `settled` reports whether the host moved that price, as `sale_price`
    /// gave it, from `who` to `seller`; without it nothing changes.
    pub fn buy(&mut self, who: AccountId, card_id: CardId, seller: AccountId, settled: bool) -> (r:
        Result<(), Error>)
        requires
            old(self).wf(),
        ensures
            final(self).wf(),
            (final(self)@, r) == old(self)@.buy(who, card_id, seller, settled),
            r is Ok ==> forall|c: CardId| #[trigger]
                final(self)@.total(c) == old(self)@.total(c),
            !old(self)@.owners.contains_key((seller, card_id)) ==> r == Err::<(), Error>(
                Error::CardNotOwned,
            ),
            old(self)@.owners.contains_key((seller, card_id)) && !old(
                self,
            )@.cards_for_sale.contains_key((card_id, seller)) ==> r == Err::<(), Error>(
                Error::CardNotForSale,
            ),
    {
        if let Err(e) = self.sale_price(card_id, seller) {
            return Err(e);
        }
        if !settled {
            return Err(Error::SettlementFailed);
        }
        proof {
            lemma_move_unit(self@, seller, who, card_id);
        }
        self.cards_for_sale.remove(&(card_id, seller));
        assert(self@.owners == old(self)@.owners && self@.cards == old(self)@.cards);
        self.move_one_unit(seller, who, card_id);
        self.deposit_event(Event::CardTransferred(seller, card_id, who));
        Ok(())
    }

    /// Runs the transaction `call` signed by `who`.
    pub fn dispatch(&mut self, who: AccountId, call: Call) -> (r: Result<(), Error>)
        requires
            old(self).wf(),
        ensures
            final(self).wf(),
            (final(self)@, r) == old(self)@.apply(who, call),
    {
        match call {
            Call::SetCreator(id) => self.set_creator(who, id),
            Call::WithdrawCreator(id) => self.withdraw_creator(who, id),
            Call::CreateCardPack(card, amount) => match self.create_card_pack(who, card, amount) {
                Ok(_) => Ok(()),
                Err(e) => Err(e),
            },
            Call::SetCardForSaleWithPrice(card_id, price) => self.set_card_for_sale_with_price(
                who,
                card_id,
                price,
            ),
            Call::RemoveCardFromSale(card_id) => self.remove_card_from_sale(who, card_id),
            Call::Buy(card_id, seller, settled) => self.buy(who, card_id, seller, settled),
            Call::Transfer(card_id, account) => self.transfer(who, card_id, account),
        }
    }

    /// Makes `id` a creator; only a creator may do so.
    pub fn set_creator(&mut self, who: AccountId, id: AccountId) -> (r: Result<(), Error>)
        requires
            old(self).wf(),
        ensures
            final(self).wf(),
            (final(self)@, r) == old(self)@.set_creator(who, id),
    {
        if !self.creators.contains(&who) {
            return Err(Error::NoPermission);
        }
        if self.creators.contains(&id) {
            return Err(Error::AccountAlreadyCreator);
        }
        self.creators.insert(id);
        self.deposit_event(Event::CreatorAssigned(who, id));
        Ok(())
    }

    /// Takes creator rights from `id`; only a creator may do so.
    pub fn withdraw_creator(&mut self, who: AccountId, id: AccountId) -> (r: Result<(), Error>)
        requires
            old(self).wf(),
        ensures
            final(self).wf(),
            (final(self)@, r) == old(self)@.withdraw_creator(who, id),
    {
        if !self.creators.contains(&who) {
            return Err(Error::NoPermission);
        }
        if !self.creators.contains(&id) {
            return Err(Error::AccountNotCreator);
        }
        self.creators.remove(&id);
        self.deposit_event(Event::CreatorWithdrawn(who, id));
        Ok(())
    }
}

/// Minting keeps the invariant: the new id had no records, so its total
/// becomes the minted amount, and no other total moves.
proof fn lemma_create_card_pack_wf(s: PalletView, who: AccountId, card: Card, amount: u16)
    requires
        s.wf(),
        s.create_card_pack(who, card, amount).1 is Ok,
    ensures
        s.create_card_pack(who, card, amount).0.wf(),
{
    let t = s.create_card_pack(who, card, amount).0;
    let id = t.previous_card_id;
    let key = (who, id);
    assert(!s.owners.contains_key(key));
    assert forall|c: CardId| #[trigger] card_total(t.owners, c) <= u16::MAX by {
        lemma_total_insert(s.owners, key, amount, c);
        if c == id {
            lemma_total_unheld(s.owners, c);
        }
    }
}

impl PalletView {
    /// The state at start-up: `creator` is the only creator, all else is empty.
    pub open spec fn genesis(creator: AccountId) -> Self {
        PalletView {
            creators: set![creator],
            cards: Map::empty(),
            owners: Map::empty(),
            cards_for_sale: Map::empty(),
            previous_card_id: 0,
            events: Seq::empty(),
        }
    }
}

/// Start-up configuration: the account seeded as the first creator.
pub struct GenesisConfig {
    pub creator: AccountId,
}

impl Default for GenesisConfig {
    fn default() -> (r: Self)
        ensures
            r.creator == 0,
    {
        GenesisConfig { creator: 0 }
    }
}

impl GenesisConfig {
    /// A fresh ledger with the configured creator seeded.
    pub fn build_storage(&self) -> (r: Pallet)
        ensures
            r.wf(),
            r@ == PalletView::genesis(self.creator),
    {
        let mut creators = BTreeSet::new();
        creators.insert(self.creator);
        let r = Pallet {
            creators,
            cards: BTreeMap::new(),
            owners: BTreeMap::new(),
            cards_for_sale: BTreeMap::new(),
            previous_card_id: DefaultPreviousId(),
            events: Vec::new(),
        };
        proof {
            assert(r@.creators =~= set![self.creator]);
            assert forall|c: CardId| #[trigger] card_total(r@.owners, c) <= u16::MAX by {
                lemma_total_unheld(r@.owners, c);
            }
        }
        r
    }

    /// Seeds the configured creator into an existing ledger.
    pub fn assimilate_storage(&self, storage: &mut Pallet)
        requires
            old(storage).wf(),
        ensures
            final(storage).wf(),
            final(storage)@ == (PalletView {
                creators: old(storage)@.creators.insert(self.creator),
                ..old(storage)@
            }),
    {
        storage.creators.insert(self.creator);
    }
}

} // verus!
