//! Sums of ownership quantities, and how they change when one record changes.
use vstd::prelude::*;

use crate::card::CardId;
use crate::pallet::AccountId;

verus! {

/// Key of an ownership record: the holder and the card.
pub type OwnerKey = (AccountId, CardId);

/// What the record under `key` contributes to the total of `card`.
pub open spec fn holding(owners: Map<OwnerKey, u16>, card: CardId, key: OwnerKey) -> int {
    if key.1 == card && owners.contains_key(key) {
        owners[key] as int
    } else {
        0
    }
}

/// Sum of the contributions of `keys` to the total of `card`.
pub open spec fn holdings_sum(owners: Map<OwnerKey, u16>, card: CardId, keys: Set<OwnerKey>) -> int
    decreases keys.len(),
    when keys.finite()
{
    if keys.len() == 0 {
        0
    } else {
        let key = keys.choose();
        holding(owners, card, key) + holdings_sum(owners, card, keys.remove(key))
    }
}

/// The number of units of `card` held over all accounts.
pub open spec fn card_total(owners: Map<OwnerKey, u16>, card: CardId) -> int {
    holdings_sum(owners, card, owners.dom())
}

proof fn lemma_sum_nonneg(owners: Map<OwnerKey, u16>, card: CardId, keys: Set<OwnerKey>)
    requires
        keys.finite(),
    ensures
        holdings_sum(owners, card, keys) >= 0,
    decreases keys.len(),
{
    if keys.len() > 0 {
        let key = keys.choose();
        lemma_sum_nonneg(owners, card, keys.remove(key));
    }
}

/// Any one key can be taken out of the sum first.
proof fn lemma_sum_remove(owners: Map<OwnerKey, u16>, card: CardId, keys: Set<OwnerKey>, a: OwnerKey)
    requires
        keys.finite(),
        keys.contains(a),
    ensures
        holdings_sum(owners, card, keys) == holding(owners, card, a) + holdings_sum(
            owners,
            card,
            keys.remove(a),
        ),
    decreases keys.len(),
{
    let key = keys.choose();
    if key != a {
        lemma_sum_remove(owners, card, keys.remove(key), a);
        lemma_sum_remove(owners, card, keys.remove(a), key);
        assert(keys.remove(key).remove(a) =~= keys.remove(a).remove(key));
    }
}

/// Two maps that agree on every contribution of `keys` have the same sum over them.
proof fn lemma_sum_agree(
    m1: Map<OwnerKey, u16>,
    m2: Map<OwnerKey, u16>,
    card: CardId,
    keys: Set<OwnerKey>,
)
    requires
        keys.finite(),
        forall|k: OwnerKey| keys.contains(k) ==> holding(m1, card, k) == holding(m2, card, k),
    ensures
        holdings_sum(m1, card, keys) == holdings_sum(m2, card, keys),
    decreases keys.len(),
{
    if keys.len() > 0 {
        let key = keys.choose();
        lemma_sum_agree(m1, m2, card, keys.remove(key));
    }
}

/// A sum in which every key contributes nothing is zero.
proof fn lemma_sum_zero(owners: Map<OwnerKey, u16>, card: CardId, keys: Set<OwnerKey>)
    requires
        keys.finite(),
        forall|k: OwnerKey| keys.contains(k) ==> holding(owners, card, k) == 0,
    ensures
        holdings_sum(owners, card, keys) == 0,
    decreases keys.len(),
{
    if keys.len() > 0 {
        let key = keys.choose();
        lemma_sum_zero(owners, card, keys.remove(key));
    }
}

/// Writing one record changes each total by the difference it makes to that total.
pub proof fn lemma_total_insert(owners: Map<OwnerKey, u16>, key: OwnerKey, v: u16, card: CardId)
    requires
        owners.dom().finite(),
    ensures
        card_total(owners.insert(key, v), card) == card_total(owners, card) - holding(
            owners,
            card,
            key,
        ) + holding(owners.insert(key, v), card, key),
{
    let after = owners.insert(key, v);
    let rest = owners.dom().remove(key);
    lemma_sum_remove(after, card, after.dom(), key);
    assert(after.dom().remove(key) =~= rest);
    lemma_sum_agree(after, owners, card, rest);
    if owners.dom().contains(key) {
        lemma_sum_remove(owners, card, owners.dom(), key);
    } else {
        assert(rest =~= owners.dom());
    }
}

/// Removing one record takes its contribution off each total.
pub proof fn lemma_total_remove(owners: Map<OwnerKey, u16>, key: OwnerKey, card: CardId)
    requires
        owners.dom().finite(),
    ensures
        card_total(owners.remove(key), card) == card_total(owners, card) - holding(
            owners,
            card,
            key,
        ),
{
    let after = owners.remove(key);
    if owners.dom().contains(key) {
        lemma_sum_remove(owners, card, owners.dom(), key);
        assert(after.dom() =~= owners.dom().remove(key));
        lemma_sum_agree(after, owners, card, after.dom());
    } else {
        assert(after =~= owners);
    }
}

/// A card that no record mentions has a total of zero.
pub proof fn lemma_total_unheld(owners: Map<OwnerKey, u16>, card: CardId)
    requires
        owners.dom().finite(),
        forall|k: OwnerKey| owners.contains_key(k) ==> k.1 != card,
    ensures
        card_total(owners, card) == 0,
{
    lemma_sum_zero(owners, card, owners.dom());
}

/// One record never holds more than the total of its card.
pub proof fn lemma_holding_within_total(owners: Map<OwnerKey, u16>, key: OwnerKey)
    requires
        owners.dom().finite(),
        owners.contains_key(key),
    ensures
        owners[key] <= card_total(owners, key.1),
{
    lemma_sum_remove(owners, key.1, owners.dom(), key);
    lemma_sum_nonneg(owners, key.1, owners.dom().remove(key));
}

/// Two records of one card never hold more, together, than its total.
pub proof fn lemma_two_holdings_within_total(owners: Map<OwnerKey, u16>, a: OwnerKey, b: OwnerKey)
    requires
        owners.dom().finite(),
        owners.contains_key(a),
        owners.contains_key(b),
        a != b,
        a.1 == b.1,
    ensures
        owners[a] + owners[b] <= card_total(owners, a.1),
{
    let card = a.1;
    let rest = owners.dom().remove(a);
    lemma_sum_remove(owners, card, owners.dom(), a);
    lemma_sum_remove(owners, card, rest, b);
    lemma_sum_nonneg(owners, card, rest.remove(b));
}

} // verus!
