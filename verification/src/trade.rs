//! The rules of a trade: the offers that wait for an answer, what a basket
//! must hold for an offer to be made or accepted, and how the fish move when
//! it is confirmed.
use crate::address::SocketAddress;
use crate::assoc::AssocMap;
use crate::basket::{gain, gain_order, lose, lose_order, quantity_of, FishBasket};
use crate::offer::{InventoryItem, ItemView, Offer, OfferView};
use crate::text::{str_eq, views};
use vstd::prelude::*;

verus! {

/// The offers that wait for an answer, by the listening address of the other
/// peer: those that this peer made and those that it received. There is at
/// most one of each for a peer.
pub struct OfferBuff {
    pub offers_made: AssocMap<SocketAddress, Offer>,
    pub offers_received: AssocMap<SocketAddress, Offer>,
}

impl OfferBuff {
    /// No offers.
    pub fn new() -> (b: Self)
        ensures
            b.offers_made@ == Map::<SocketAddress, Offer>::empty(),
            b.offers_received@ == Map::<SocketAddress, Offer>::empty(),
            b.offers_made.order() == Seq::<SocketAddress>::empty(),
            b.offers_received.order() == Seq::<SocketAddress>::empty(),
    {
        OfferBuff { offers_made: AssocMap::new(), offers_received: AssocMap::new() }
    }
}

impl Default for OfferBuff {
    fn default() -> (b: Self)
        ensures
            b.offers_made@ == Map::<SocketAddress, Offer>::empty(),
            b.offers_received@ == Map::<SocketAddress, Offer>::empty(),
            b.offers_made.order() == Seq::<SocketAddress>::empty(),
            b.offers_received.order() == Seq::<SocketAddress>::empty(),
    {
        OfferBuff::new()
    }
}

/// The holdings `m` after gaining each of `items`, one after the other.
pub open spec fn gain_all(m: Map<Seq<char>, u32>, items: Seq<ItemView>) -> Map<Seq<char>, u32>
    decreases items.len(),
{
    if items.len() == 0 {
        m
    } else {
        gain(gain_all(m, items.drop_last()), items.last().fish_type, items.last().quantity)
    }
}

/// The holdings `m` after losing each of `items`, one after the other.
pub open spec fn lose_all(m: Map<Seq<char>, u32>, items: Seq<ItemView>) -> Map<Seq<char>, u32>
    decreases items.len(),
{
    if items.len() == 0 {
        m
    } else {
        lose(lose_all(m, items.drop_last()), items.last().fish_type, items.last().quantity)
    }
}

/// The order of the kinds held after `gain_all`.
pub open spec fn gain_all_order(
    order: Seq<Seq<char>>,
    m: Map<Seq<char>, u32>,
    items: Seq<ItemView>,
) -> Seq<Seq<char>>
    decreases items.len(),
{
    if items.len() == 0 {
        order
    } else {
        gain_order(
            gain_all_order(order, m, items.drop_last()),
            gain_all(m, items.drop_last()),
            items.last().fish_type,
        )
    }
}

/// The order of the kinds held after `lose_all`.
pub open spec fn lose_all_order(
    order: Seq<Seq<char>>,
    m: Map<Seq<char>, u32>,
    items: Seq<ItemView>,
) -> Seq<Seq<char>>
    decreases items.len(),
{
    if items.len() == 0 {
        order
    } else {
        lose_order(
            lose_all_order(order, m, items.drop_last()),
            lose_all(m, items.drop_last()),
            items.last().fish_type,
            items.last().quantity,
        )
    }
}

/// The order of the kinds held after `accept`.
pub open spec fn accept_order(
    order: Seq<Seq<char>>,
    m: Map<Seq<char>, u32>,
    offer: OfferView,
) -> Seq<Seq<char>> {
    lose_all_order(
        gain_all_order(order, m, offer.offered),
        gain_all(m, offer.offered),
        offer.requested,
    )
}

/// The order of the kinds held after `settle`.
pub open spec fn settle_order(
    order: Seq<Seq<char>>,
    m: Map<Seq<char>, u32>,
    offer: OfferView,
) -> Seq<Seq<char>> {
    gain_all_order(
        lose_all_order(order, m, offer.offered),
        lose_all(m, offer.offered),
        offer.requested,
    )
}

/// The holdings of the peer that accepts `offer`: it gains what is offered
/// and then loses what is requested.
pub open spec fn accept(m: Map<Seq<char>, u32>, offer: OfferView) -> Map<Seq<char>, u32> {
    lose_all(gain_all(m, offer.offered), offer.requested)
}

/// The holdings of the peer that made `offer`, once it is accepted: it loses
/// what it offered and then gains what it requested.
pub open spec fn settle(m: Map<Seq<char>, u32>, offer: OfferView) -> Map<Seq<char>, u32> {
    gain_all(lose_all(m, offer.offered), offer.requested)
}

/// How many fish of the kind `kind` the items `items` name in all.
pub open spec fn item_sum(items: Seq<ItemView>, kind: Seq<char>) -> nat
    decreases items.len(),
{
    if items.len() == 0 {
        0
    } else {
        item_sum(items.drop_last(), kind) + (if items.last().fish_type == kind {
            items.last().quantity as nat
        } else {
            0
        })
    }
}

/// How many fish of the kind `kind` the offers `offers` give away in all.
pub open spec fn promised(offers: Seq<Offer>, kind: Seq<char>) -> nat
    decreases offers.len(),
{
    if offers.len() == 0 {
        0
    } else {
        promised(offers.drop_last(), kind) + item_sum(offers.last()@.offered, kind)
    }
}

/// How many fish of the kind `kind` are free to offer: what the holdings
/// have, less what the offers made give away already, and never below none.
pub open spec fn available(m: Map<Seq<char>, u32>, offers: Seq<Offer>, kind: Seq<char>) -> nat {
    let held = quantity_of(m, kind);
    let gone = promised(offers, kind);
    if gone >= held {
        0
    } else {
        (held - gone) as nat
    }
}

/// The place of the first of `items` of which the holdings `m` have fewer
/// than it names; the length of `items` where they have enough of each.
pub open spec fn first_missing(m: Map<Seq<char>, u32>, items: Seq<ItemView>) -> int
    decreases items.len(),
{
    if items.len() == 0 {
        0
    } else {
        let before = first_missing(m, items.drop_last());
        if before < items.len() - 1 {
            before
        } else if quantity_of(m, items.last().fish_type) < items.last().quantity {
            items.len() - 1
        } else {
            items.len() as int
        }
    }
}

/// The place of the first of `items` of which fewer are free to offer than
/// it names; the length of `items` where enough of each are free.
pub open spec fn first_unavailable(
    m: Map<Seq<char>, u32>,
    offers: Seq<Offer>,
    items: Seq<ItemView>,
) -> int
    decreases items.len(),
{
    if items.len() == 0 {
        0
    } else {
        let before = first_unavailable(m, offers, items.drop_last());
        if before < items.len() - 1 {
            before
        } else if available(m, offers, items.last().fish_type) < items.last().quantity {
            items.len() - 1
        } else {
            items.len() as int
        }
    }
}

/// The holdings have, of every kind, as many fish as `items` name in all.
pub open spec fn covers(m: Map<Seq<char>, u32>, items: Seq<ItemView>) -> bool {
    forall|kind: Seq<char>| item_sum(items, kind) <= #[trigger] quantity_of(m, kind)
}

/// The holdings can take, of every kind, as many more fish as `items` name in
/// all without passing what a `u32` can count.
pub open spec fn has_room(m: Map<Seq<char>, u32>, items: Seq<ItemView>) -> bool {
    forall|kind: Seq<char>| #[trigger] quantity_of(m, kind) + item_sum(items, kind) <= u32::MAX
}

/// Holdings with room for `items` count, after gaining them, that many more.
pub proof fn lemma_gain_all(m: Map<Seq<char>, u32>, items: Seq<ItemView>, kind: Seq<char>)
    requires
        has_room(m, items),
    ensures
        quantity_of(gain_all(m, items), kind) == quantity_of(m, kind) + item_sum(items, kind),
    decreases items.len(),
{
    if items.len() > 0 {
        let rest = items.drop_last();
        assert forall|k: Seq<char>| #[trigger]
            quantity_of(m, k) + item_sum(rest, k) <= u32::MAX by {
            assert(quantity_of(m, k) + item_sum(items, k) <= u32::MAX);
        }
        lemma_gain_all(m, rest, kind);
        lemma_gain_all(m, rest, items.last().fish_type);
        assert(quantity_of(m, items.last().fish_type) + item_sum(items, items.last().fish_type)
            <= u32::MAX);
    }
}

/// Holdings that cover `items` count, after losing them, that many fewer.
pub proof fn lemma_lose_all(m: Map<Seq<char>, u32>, items: Seq<ItemView>, kind: Seq<char>)
    requires
        covers(m, items),
    ensures
        quantity_of(lose_all(m, items), kind) == quantity_of(m, kind) - item_sum(items, kind),
    decreases items.len(),
{
    if items.len() > 0 {
        let rest = items.drop_last();
        assert forall|k: Seq<char>| item_sum(rest, k) <= #[trigger] quantity_of(m, k) by {
            assert(item_sum(items, k) <= quantity_of(m, k));
        }
        lemma_lose_all(m, rest, kind);
        lemma_lose_all(m, rest, items.last().fish_type);
        assert(item_sum(items, items.last().fish_type) <= quantity_of(
            m,
            items.last().fish_type,
        ));
    }
}

/// A confirmed trade only moves fish: of every kind, the two peers hold after
/// it as many fish together as before. This is stated for trades in which no
/// count is cut short: the maker of the offer still holds what it offered, the
/// peer that accepts holds, with what it gains, what is requested, and no
/// count passes what a `u32` can hold.
pub proof fn lemma_trade_moves_fish(
    offerer: Map<Seq<char>, u32>,
    responder: Map<Seq<char>, u32>,
    offer: OfferView,
    kind: Seq<char>,
)
    requires
        covers(offerer, offer.offered),
        has_room(lose_all(offerer, offer.offered), offer.requested),
        has_room(responder, offer.offered),
        covers(gain_all(responder, offer.offered), offer.requested),
    ensures
        quantity_of(settle(offerer, offer), kind) + quantity_of(accept(responder, offer), kind)
            == quantity_of(offerer, kind) + quantity_of(responder, kind),
{
    lemma_lose_all(offerer, offer.offered, kind);
    lemma_gain_all(lose_all(offerer, offer.offered), offer.requested, kind);
    lemma_gain_all(responder, offer.offered, kind);
    lemma_lose_all(gain_all(responder, offer.offered), offer.requested, kind);
}

impl FishBasket {
    /// Puts each of `items` into the basket.
    pub fn gain_all(&mut self, items: &Vec<InventoryItem>)
        ensures
            final(self)@ == gain_all(old(self)@, views(items@)),
            final(self).order() == gain_all_order(old(self).order(), old(self)@, views(items@)),
    {
        let ghost all = views(items@);
        let mut i: usize = 0;
        assert(all.take(0) == Seq::<ItemView>::empty());
        while i < items.len()
            invariant
                i <= items.len(),
                all == views(items@),
                self@ == gain_all(old(self)@, all.take(i as int)),
                self.order() == gain_all_order(old(self).order(), old(self)@, all.take(i as int)),
            decreases items.len() - i,
        {
            assert(all.take(i + 1).drop_last() == all.take(i as int));
            assert(all.take(i + 1).last() == items@[i as int]@);
            self.add(items[i].fish_type.as_str(), items[i].quantity);
            i += 1;
        }
        assert(all.take(items.len() as int) == all);
    }

    /// Takes each of `items` out of the basket, as far as the basket holds them.
    pub fn lose_all(&mut self, items: &Vec<InventoryItem>)
        ensures
            final(self)@ == lose_all(old(self)@, views(items@)),
            final(self).order() == lose_all_order(old(self).order(), old(self)@, views(items@)),
    {
        let ghost all = views(items@);
        let mut i: usize = 0;
        assert(all.take(0) == Seq::<ItemView>::empty());
        while i < items.len()
            invariant
                i <= items.len(),
                all == views(items@),
                self@ == lose_all(old(self)@, all.take(i as int)),
                self.order() == lose_all_order(old(self).order(), old(self)@, all.take(i as int)),
            decreases items.len() - i,
        {
            assert(all.take(i + 1).drop_last() == all.take(i as int));
            assert(all.take(i + 1).last() == items@[i as int]@);
            self.take(items[i].fish_type.as_str(), items[i].quantity);
            i += 1;
        }
        assert(all.take(items.len() as int) == all);
    }

    /// The place of the first of `items` of which the basket holds fewer than
    /// it names; the length of `items` where it holds enough of each.
    pub fn first_missing(&self, items: &Vec<InventoryItem>) -> (at: usize)
        ensures
            at == first_missing(self@, views(items@)),
            at <= items.len(),
    {
        let ghost all = views(items@);
        let mut i: usize = 0;
        assert(all.take(0) == Seq::<ItemView>::empty());
        while i < items.len()
            invariant
                i <= items.len(),
                all == views(items@),
                first_missing(self@, all.take(i as int)) == i,
            decreases items.len() - i,
        {
            assert(all.take(i + 1).drop_last() == all.take(i as int));
            assert(all.take(i + 1).last() == items@[i as int]@);
            if self.quantity(items[i].fish_type.as_str()) < items[i].quantity {
                proof {
                    lemma_first_missing_stays(self@, all, i as int + 1);
                }
                return i;
            }
            i += 1;
        }
        assert(all.take(items.len() as int) == all);
        i
    }
}

/// A place found among the first items is the place in the whole.
pub proof fn lemma_first_missing_stays(m: Map<Seq<char>, u32>, items: Seq<ItemView>, k: int)
    requires
        0 <= k <= items.len(),
        first_missing(m, items.take(k)) < k,
    ensures
        first_missing(m, items) == first_missing(m, items.take(k)),
    decreases items.len() - k,
{
    if k < items.len() {
        assert(items.take(k + 1).drop_last() == items.take(k));
        lemma_first_missing_stays(m, items, k + 1);
    } else {
        assert(items.take(k) == items);
    }
}

/// A place found among the first items is the place in the whole.
pub proof fn lemma_first_unavailable_stays(
    m: Map<Seq<char>, u32>,
    offers: Seq<Offer>,
    items: Seq<ItemView>,
    k: int,
)
    requires
        0 <= k <= items.len(),
        first_unavailable(m, offers, items.take(k)) < k,
    ensures
        first_unavailable(m, offers, items) == first_unavailable(m, offers, items.take(k)),
    decreases items.len() - k,
{
    if k < items.len() {
        assert(items.take(k + 1).drop_last() == items.take(k));
        lemma_first_unavailable_stays(m, offers, items, k + 1);
    } else {
        assert(items.take(k) == items);
    }
}

/// The most that a count of promised fish is followed up to: one more than
/// any basket can hold of a kind.
pub const PROMISE_CAP: u64 = 0x1_0000_0000;

/// `n`, or the cap where `n` is above it.
pub open spec fn capped(n: nat) -> nat {
    if n > PROMISE_CAP {
        PROMISE_CAP as nat
    } else {
        n
    }
}

/// How many fish of the kind `kind` the items name in all, counted up to the cap.
fn item_sum_capped(items: &Vec<InventoryItem>, kind: &str) -> (n: u64)
    ensures
        n == capped(item_sum(views(items@), kind@)),
{
    let ghost all = views(items@);
    let mut n: u64 = 0;
    let mut i: usize = 0;
    assert(all.take(0) == Seq::<ItemView>::empty());
    while i < items.len()
        invariant
            i <= items.len(),
            all == views(items@),
            n == capped(item_sum(all.take(i as int), kind@)),
        decreases items.len() - i,
    {
        assert(all.take(i + 1).drop_last() == all.take(i as int));
        assert(all.take(i + 1).last() == items@[i as int]@);
        if str_eq(items[i].fish_type.as_str(), kind) {
            n = n + items[i].quantity as u64;
            if n > PROMISE_CAP {
                n = PROMISE_CAP;
            }
        }
        i += 1;
    }
    assert(all.take(items.len() as int) == all);
    n
}

/// How many fish of the kind `kind` the offers made give away in all, counted
/// up to the cap.
pub fn promised_capped(offers_made: &AssocMap<SocketAddress, Offer>, kind: &str) -> (n: u64)
    ensures
        n == capped(promised(offers_made.values(), kind@)),
{
    let ghost all = offers_made.values();
    let count = offers_made.len();
    let mut n: u64 = 0;
    let mut i: usize = 0;
    assert(all.take(0) == Seq::<Offer>::empty());
    while i < count
        invariant
            i <= count == all.len(),
            all == offers_made.values(),
            n == capped(promised(all.take(i as int), kind@)),
        decreases count - i,
    {
        assert(all.take(i + 1).drop_last() == all.take(i as int));
        let offer = offers_made.value_at(i);
        assert(all.take(i + 1).last() == *offer);
        let more = item_sum_capped(&offer.offered, kind);
        n = n + more;
        if n > PROMISE_CAP {
            n = PROMISE_CAP;
        }
        i += 1;
    }
    assert(all.take(count as int) == all);
    n
}

/// How many fish of the kind `kind` are free to offer.
pub fn available_fish(basket: &FishBasket, offers_made: &AssocMap<SocketAddress, Offer>, kind: &str) -> (n:
    u32)
    ensures
        n == available(basket@, offers_made.values(), kind@),
{
    let held = basket.quantity(kind);
    let gone = promised_capped(offers_made, kind);
    if gone >= held as u64 {
        0
    } else {
        held - (gone as u32)
    }
}

/// The place of the first of `items` of which fewer are free to offer than it
/// names, with the number that are free; the length of `items` where enough of
/// each are free.
pub fn first_unavailable_fish(
    basket: &FishBasket,
    offers_made: &AssocMap<SocketAddress, Offer>,
    items: &Vec<InventoryItem>,
) -> (r: (usize, u32))
    ensures
        r.0 == first_unavailable(basket@, offers_made.values(), views(items@)),
        r.0 <= items.len(),
        r.0 < items.len() ==> r.1 == available(
            basket@,
            offers_made.values(),
            items@[r.0 as int]@.fish_type,
        ),
{
    let ghost all = views(items@);
    let mut i: usize = 0;
    assert(all.take(0) == Seq::<ItemView>::empty());
    while i < items.len()
        invariant
            i <= items.len(),
            all == views(items@),
            first_unavailable(basket@, offers_made.values(), all.take(i as int)) == i,
        decreases items.len() - i,
    {
        assert(all.take(i + 1).drop_last() == all.take(i as int));
        assert(all.take(i + 1).last() == items@[i as int]@);
        let free = available_fish(basket, offers_made, items[i].fish_type.as_str());
        if free < items[i].quantity {
            proof {
                lemma_first_unavailable_stays(basket@, offers_made.values(), all, i as int + 1);
            }
            return (i, free);
        }
        i += 1;
    }
    assert(all.take(items.len() as int) == all);
    (i, 0)
}

} // verus!
