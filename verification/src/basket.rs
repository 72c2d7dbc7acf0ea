//! The basket: how many fish of each kind a player holds.
use crate::assoc::{consistent, order_with, AssocMap};
use crate::offer::{InventoryItem, ItemView};
use crate::text::{lemma_views_push, views};
use vstd::prelude::*;

verus! {

/// How many fish of the kind `kind` the holdings `m` have: none where the kind is not held.
pub open spec fn quantity_of(m: Map<Seq<char>, u32>, kind: Seq<char>) -> nat {
    if m.contains_key(kind) {
        m[kind] as nat
    } else {
        0
    }
}

/// The holdings `m` with `n` more fish of the kind `kind`, up to the most
/// that a `u32` can count.
pub open spec fn gain(m: Map<Seq<char>, u32>, kind: Seq<char>, n: u32) -> Map<Seq<char>, u32> {
    let sum = quantity_of(m, kind) + n;
    m.insert(
        kind,
        if sum > u32::MAX {
            u32::MAX
        } else {
            sum as u32
        },
    )
}

/// The holdings `m` with `n` fewer fish of the kind `kind`: never below
/// none, and a kind of which none is left is held no more. Holdings without
/// the kind stay as they are.
pub open spec fn lose(m: Map<Seq<char>, u32>, kind: Seq<char>, n: u32) -> Map<Seq<char>, u32> {
    if !m.contains_key(kind) {
        m
    } else if m[kind] <= n {
        m.remove(kind)
    } else {
        m.insert(kind, (m[kind] - n) as u32)
    }
}

/// The order of the kinds held, after `gain` on holdings `m` in the order
/// `order`: a kind that was not held comes last.
pub open spec fn gain_order(order: Seq<Seq<char>>, m: Map<Seq<char>, u32>, kind: Seq<char>) -> Seq<
    Seq<char>,
> {
    order_with(order, m, kind)
}

/// The order of the kinds held, after `lose` on holdings `m` in the order
/// `order`: a kind of which none is left leaves the order.
pub open spec fn lose_order(
    order: Seq<Seq<char>>,
    m: Map<Seq<char>, u32>,
    kind: Seq<char>,
    n: u32,
) -> Seq<Seq<char>> {
    if m.contains_key(kind) && m[kind] <= n {
        order.remove(order.index_of(kind))
    } else {
        order
    }
}

/// The items that holdings stand for, in the order `order`.
pub open spec fn items_of(order: Seq<Seq<char>>, m: Map<Seq<char>, u32>) -> Seq<ItemView> {
    Seq::new(order.len(), |i: int| ItemView { fish_type: order[i], quantity: m[order[i]] })
}

/// A basket of fish: for each kind held, how many.
pub struct FishBasket(AssocMap<String, u32>);

impl View for FishBasket {
    type V = Map<Seq<char>, u32>;

    closed spec fn view(&self) -> Map<Seq<char>, u32> {
        self.0@
    }
}

impl FishBasket {
    /// The kinds held, in the order in which they first came.
    pub closed spec fn order(&self) -> Seq<Seq<char>> {
        self.0.order()
    }

    /// An empty basket.
    pub fn new() -> (b: Self)
        ensures
            b@ == Map::<Seq<char>, u32>::empty(),
            b.order() == Seq::<Seq<char>>::empty(),
    {
        Self(AssocMap::new())
    }

    /// The map inside the basket.
    pub fn map(&self) -> (m: &AssocMap<String, u32>)
        ensures
            m@ == self@,
            m.order() == self.order(),
    {
        &self.0
    }

    /// The map inside the basket, to change it.
    pub fn map_mut(&mut self) -> (m: &mut AssocMap<String, u32>)
        ensures
            m@ == old(self)@,
            m.order() == old(self).order(),
            final(self)@ == final(m)@,
            final(self).order() == final(m).order(),
    {
        &mut self.0
    }

    /// How many fish of the kind `kind` the basket holds.
    pub fn quantity(&self, kind: &str) -> (n: u32)
        ensures
            n == quantity_of(self@, kind@),
    {
        match self.0.get(&kind.to_owned()) {
            Some(n) => *n,
            None => 0,
        }
    }

    /// Puts `n` more fish of the kind `kind` into the basket.
    pub fn add(&mut self, kind: &str, n: u32)
        ensures
            final(self)@ == gain(old(self)@, kind@, n),
            final(self).order() == gain_order(old(self).order(), old(self)@, kind@),
    {
        let held = self.quantity(kind);
        let sum = if n > u32::MAX - held {
            u32::MAX
        } else {
            held + n
        };
        self.0.insert(kind.to_owned(), sum);
    }

    /// Takes `n` fish of the kind `kind` out of the basket, or as many as there are.
    pub fn take(&mut self, kind: &str, n: u32)
        ensures
            final(self)@ == lose(old(self)@, kind@, n),
            final(self).order() == lose_order(old(self).order(), old(self)@, kind@, n),
    {
        let key = kind.to_owned();
        let held = match self.0.get(&key) {
            Some(h) => *h,
            None => {
                return ;
            },
        };
        if held <= n {
            self.0.remove(&key);
        } else {
            self.0.insert(key, held - n);
        }
    }

    /// What the basket holds as a list of items, in the order in which the kinds came.
    pub fn items(&self) -> (out: Vec<InventoryItem>)
        ensures
            views(out@) == items_of(self.order(), self@),
            consistent(self.order(), self@),
    {
        let mut out: Vec<InventoryItem> = Vec::new();
        let n = self.0.len();
        let mut i: usize = 0;
        while i < n
            invariant
                i <= n == self.order().len(),
                views(out@) == items_of(self.order(), self@).take(i as int),
            decreases n - i,
        {
            let kind = self.0.key_at(i).clone();
            let quantity = *self.0.value_at(i);
            let item = InventoryItem::new(kind, quantity);
            let ghost all = items_of(self.order(), self@);
            assert(item@ == all[i as int]);
            proof {
                lemma_views_push(out@, item);
            }
            out.push(item);
            i += 1;
            assert(all.take(i as int) =~= all.take(i - 1).push(all[i - 1]));
        }
        assert(items_of(self.order(), self@).take(n as int) == items_of(self.order(), self@));
        out
    }
}

impl Default for FishBasket {
    fn default() -> (b: Self)
        ensures
            b@ == Map::<Seq<char>, u32>::empty(),
            b.order() == Seq::<Seq<char>>::empty(),
    {
        FishBasket::new()
    }
}

} // verus!
