//! Inventory items, inventories and trade offers, and their text forms: an item
//! is `kind|quantity`, a list of items is separated by commas, and an offer is
//! the list offered, `>`, and the list requested.
use crate::decimal::{decimal, parse_unsigned, push_decimal, read_unsigned};
use crate::escape::{escape, push_escaped};
use crate::text::{
    chars_of, join, lemma_views_push, result_view, split, split_chars, string_of, trim, trimmed,
    views,
};
use vstd::prelude::*;
use vstd::string::StringExecFns;

verus! {

/// What an item of an inventory without exactly one `|` is answered with.
pub const INVALID_INVENTORY_ITEM: &'static str = "Invalid inventory item format";

/// What an offer without exactly one `>` is answered with.
pub const INVALID_OFFER: &'static str = "Invalid offer format";

/// What an item of an offer without exactly one `|` is answered with.
pub const INVALID_OFFER_ITEM: &'static str = "Invalid offer item format";

/// What a quantity that is no number of 32 bits is answered with.
pub const INVALID_QUANTITY: &'static str = "Invalid quantity";

/// What separates the items of an inventory when it is written.
pub const INVENTORY_SEPARATOR: &'static str = ", ";

/// What separates the items of each side of an offer when it is written.
pub const OFFER_SEPARATOR: &'static str = ",";

/// What stands between the two sides of an offer when it is written.
pub const OFFER_ARROW: &'static str = " > ";

/// A kind of fish and how many of it.
#[derive(Debug, PartialEq)]
pub struct InventoryItem {
    pub fish_type: String,
    pub quantity: u32,
}

/// An item as the contracts speak of it.
pub struct ItemView {
    pub fish_type: Seq<char>,
    pub quantity: u32,
}

impl View for InventoryItem {
    type V = ItemView;

    open spec fn view(&self) -> ItemView {
        ItemView { fish_type: self.fish_type@, quantity: self.quantity }
    }
}

impl DeepView for InventoryItem {
    type V = ItemView;

    open spec fn deep_view(&self) -> ItemView {
        self@
    }
}

/// A list of items.
#[derive(Debug, PartialEq)]
pub struct Inventory {
    pub items: Vec<InventoryItem>,
}

impl View for Inventory {
    type V = Seq<ItemView>;

    open spec fn view(&self) -> Seq<ItemView> {
        views(self.items@)
    }
}

/// A trade: what its maker gives and what it asks for.
#[derive(Debug, PartialEq)]
pub struct Offer {
    pub offered: Vec<InventoryItem>,
    pub requested: Vec<InventoryItem>,
}

/// An offer as the contracts speak of it.
pub struct OfferView {
    pub offered: Seq<ItemView>,
    pub requested: Seq<ItemView>,
}

impl View for Offer {
    type V = OfferView;

    open spec fn view(&self) -> OfferView {
        OfferView { offered: views(self.offered@), requested: views(self.requested@) }
    }
}

impl DeepView for Offer {
    type V = OfferView;

    open spec fn deep_view(&self) -> OfferView {
        self@
    }
}

/// The text form of an item: the kind, `|` and the quantity in decimal.
pub open spec fn item_text(item: ItemView) -> Seq<char> {
    item.fish_type + seq!['|'] + decimal(item.quantity as nat)
}

/// The text forms of `items`, in order.
pub open spec fn item_texts(items: Seq<ItemView>) -> Seq<Seq<char>> {
    Seq::new(items.len(), |i: int| item_text(items[i]))
}

/// The text forms of `items` with `sep` between them.
pub open spec fn items_text(items: Seq<ItemView>, sep: Seq<char>) -> Seq<char> {
    join(item_texts(items), sep)
}

/// The text form of an inventory: its items with `, ` between them.
pub open spec fn inventory_text(items: Seq<ItemView>) -> Seq<char> {
    items_text(items, INVENTORY_SEPARATOR@)
}

/// The text form of an offer: the items offered, ` > `, and the items requested, each list with `,` between its items.
pub open spec fn offer_text(offer: OfferView) -> Seq<char> {
    items_text(offer.offered, OFFER_SEPARATOR@) + OFFER_ARROW@ + items_text(
        offer.requested,
        OFFER_SEPARATOR@,
    )
}

/// `item` with its kind escaped.
pub open spec fn escape_item(item: ItemView) -> ItemView {
    ItemView { fish_type: escape(item.fish_type), quantity: item.quantity }
}

/// `items` with the kind of each escaped.
pub open spec fn escape_items(items: Seq<ItemView>) -> Seq<ItemView> {
    Seq::new(items.len(), |i: int| escape_item(items[i]))
}

/// `offer` with the kind of each item escaped.
pub open spec fn escape_offer(offer: OfferView) -> OfferView {
    OfferView {
        offered: escape_items(offer.offered),
        requested: escape_items(offer.requested),
    }
}

/// The item that `s` writes: exactly one `|`, with the kind before it and the
/// quantity behind it, each without the whitespace around it. Where there is not
/// exactly one `|` the answer is `format_error`.
pub open spec fn parse_item(s: Seq<char>, format_error: Seq<char>) -> Result<ItemView, Seq<char>> {
    let parts = split(s, '|');
    if parts.len() != 2 {
        Err(format_error)
    } else {
        match parse_unsigned(trim(parts[1]), u32::MAX as nat) {
            Some(n) => Ok(ItemView { fish_type: trim(parts[0]), quantity: n as u32 }),
            None => Err(INVALID_QUANTITY@),
        }
    }
}

/// The items that `pieces` write, each without the whitespace around it and
/// the empty ones left out; the error of the first piece that is no item.
pub open spec fn parse_pieces(pieces: Seq<Seq<char>>, format_error: Seq<char>) -> Result<
    Seq<ItemView>,
    Seq<char>,
>
    decreases pieces.len(),
{
    if pieces.len() == 0 {
        Ok(Seq::empty())
    } else {
        match parse_pieces(pieces.drop_last(), format_error) {
            Err(e) => Err(e),
            Ok(items) => {
                let piece = trim(pieces.last());
                if piece.len() == 0 {
                    Ok(items)
                } else {
                    match parse_item(piece, format_error) {
                        Ok(item) => Ok(items.push(item)),
                        Err(e) => Err(e),
                    }
                }
            },
        }
    }
}

/// The items that `s` writes, separated by commas.
pub open spec fn parse_items(s: Seq<char>, format_error: Seq<char>) -> Result<
    Seq<ItemView>,
    Seq<char>,
> {
    parse_pieces(split(s, ','), format_error)
}

/// The inventory that `s` writes: items separated by commas.
pub open spec fn parse_inventory(s: Seq<char>) -> Result<Seq<ItemView>, Seq<char>> {
    parse_items(s, INVALID_INVENTORY_ITEM@)
}

/// The offer that `s` writes: exactly one `>`, with the items offered before it
/// and the items requested behind it.
pub open spec fn parse_offer(s: Seq<char>) -> Result<OfferView, Seq<char>> {
    let sides = split(s, '>');
    if sides.len() != 2 {
        Err(INVALID_OFFER@)
    } else {
        match parse_items(sides[0], INVALID_OFFER_ITEM@) {
            Err(e) => Err(e),
            Ok(offered) => match parse_items(sides[1], INVALID_OFFER_ITEM@) {
                Err(e) => Err(e),
                Ok(requested) => Ok(OfferView { offered, requested }),
            },
        }
    }
}

/// An error among the first pieces is the error of the whole.
pub proof fn lemma_parse_pieces_error(pieces: Seq<Seq<char>>, format_error: Seq<char>, k: int)
    requires
        0 <= k <= pieces.len(),
        parse_pieces(pieces.take(k), format_error) is Err,
    ensures
        parse_pieces(pieces, format_error) == parse_pieces(pieces.take(k), format_error),
    decreases pieces.len() - k,
{
    if k < pieces.len() {
        assert(pieces.take(k + 1).drop_last() == pieces.take(k));
        lemma_parse_pieces_error(pieces, format_error, k + 1);
    } else {
        assert(pieces.take(k) == pieces);
    }
}

impl InventoryItem {
    /// The item of `quantity` fish of the kind `fish_type`.
    pub fn new(fish_type: String, quantity: u32) -> (item: Self)
        ensures
            item@ == (ItemView { fish_type: fish_type@, quantity }),
    {
        Self { fish_type, quantity }
    }

    /// Appends the text form of the item to `out`.
    pub fn push_text(&self, out: &mut String)
        ensures
            final(out)@ == old(out)@ + item_text(self@),
    {
        out.append(self.fish_type.as_str());
        out.push('|');
        push_decimal(out, self.quantity);
        assert(out@ =~= old(out)@ + item_text(self@));
    }

    /// The text form of the item.
    pub fn to_string(&self) -> (out: String)
        ensures
            out@ == item_text(self@),
    {
        let mut out = String::new();
        self.push_text(&mut out);
        assert(Seq::<char>::empty() + item_text(self@) == item_text(self@));
        out
    }

    /// The item with its kind escaped.
    pub fn escaped(&self) -> (r: InventoryItem)
        ensures
            r@ == escape_item(self@),
    {
        let kind = chars_of(self.fish_type.as_str());
        let mut fish_type = String::new();
        push_escaped(&mut fish_type, &kind);
        assert(Seq::<char>::empty() + escape(kind@) == escape(kind@));
        InventoryItem { fish_type, quantity: self.quantity }
    }

    /// Reads an item from its text form.
    pub fn parse_chars(v: &Vec<char>, format_error: &str) -> (r: Result<InventoryItem, String>)
        ensures
            result_view(r) == parse_item(v@, format_error@),
    {
        let parts = split_chars(v, '|');
        if parts.len() != 2 {
            return Err(format_error.to_owned());
        }
        assert(views(parts@)[0] == parts@[0]@);
        assert(views(parts@)[1] == parts@[1]@);
        let kind = trimmed(&parts[0]);
        let number = trimmed(&parts[1]);
        match read_unsigned(&number, u32::MAX) {
            Some(quantity) => Ok(InventoryItem { fish_type: string_of(&kind), quantity }),
            None => Err(INVALID_QUANTITY.to_owned()),
        }
    }
}

impl Clone for InventoryItem {
    fn clone(&self) -> (r: Self)
        ensures
            r@ == self@,
    {
        InventoryItem { fish_type: self.fish_type.clone(), quantity: self.quantity }
    }
}

/// A copy of `items`.
pub fn clone_items(items: &Vec<InventoryItem>) -> (out: Vec<InventoryItem>)
    ensures
        views(out@) == views(items@),
{
    let mut out: Vec<InventoryItem> = Vec::new();
    let mut i: usize = 0;
    while i < items.len()
        invariant
            i <= items.len(),
            views(out@) == views(items@).take(i as int),
        decreases items.len() - i,
    {
        let item = items[i].clone();
        proof {
            lemma_views_push(out@, item);
        }
        out.push(item);
        i += 1;
        assert(views(out@) =~= views(items@).take(i as int));
    }
    assert(views(items@).take(items.len() as int) == views(items@));
    out
}

/// A copy of `items` with the kind of each escaped.
pub fn escaped_items(items: &Vec<InventoryItem>) -> (out: Vec<InventoryItem>)
    ensures
        views(out@) == escape_items(views(items@)),
{
    let mut out: Vec<InventoryItem> = Vec::new();
    let mut i: usize = 0;
    while i < items.len()
        invariant
            i <= items.len(),
            views(out@) == escape_items(views(items@)).take(i as int),
        decreases items.len() - i,
    {
        let item = items[i].escaped();
        proof {
            lemma_views_push(out@, item);
        }
        out.push(item);
        i += 1;
        assert(views(out@) =~= escape_items(views(items@)).take(i as int));
    }
    assert(escape_items(views(items@)).take(items.len() as int) == escape_items(views(items@)));
    out
}

/// Appends the text forms of `items` to `out`, with `sep` between them.
pub fn push_items_text(out: &mut String, items: &Vec<InventoryItem>, sep: &str)
    ensures
        final(out)@ == old(out)@ + items_text(views(items@), sep@),
{
    let ghost texts = item_texts(views(items@));
    let mut i: usize = 0;
    assert(texts.take(0) == Seq::<Seq<char>>::empty());
    assert(old(out)@ + join(texts.take(0), sep@) == old(out)@);
    while i < items.len()
        invariant
            i <= items.len(),
            texts == item_texts(views(items@)),
            out@ == old(out)@ + join(texts.take(i as int), sep@),
        decreases items.len() - i,
    {
        let ghost before = out@;
        if i > 0 {
            out.append(sep);
        }
        items[i].push_text(out);
        assert(texts.take(i + 1).drop_last() == texts.take(i as int));
        assert(texts.take(i + 1).last() == item_text(items@[i as int]@));
        assert(out@ =~= old(out)@ + join(texts.take(i + 1), sep@));
        i += 1;
    }
    assert(texts.take(items.len() as int) == texts);
}

/// Reads the items that `v` writes, separated by commas.
pub fn parse_items_chars(v: &Vec<char>, format_error: &str) -> (r: Result<
    Vec<InventoryItem>,
    String,
>)
    ensures
        (match parse_items(v@, format_error@) {
            Ok(items) => r is Ok && views(r->Ok_0@) == items,
            Err(e) => r is Err && r->Err_0@ == e,
        }),
{
    let pieces = split_chars(v, ',');
    let ghost all = split(v@, ',');
    let mut out: Vec<InventoryItem> = Vec::new();
    let mut i: usize = 0;
    assert(all.take(0) == Seq::<Seq<char>>::empty());
    assert(views(out@) == Seq::<ItemView>::empty());
    while i < pieces.len()
        invariant
            i <= pieces.len(),
            all == views(pieces@),
            all == split(v@, ','),
            parse_pieces(all.take(i as int), format_error@) == Ok::<Seq<ItemView>, Seq<char>>(
                views(out@),
            ),
        decreases pieces.len() - i,
    {
        assert(all.take(i + 1).drop_last() == all.take(i as int));
        assert(all.take(i + 1).last() == pieces@[i as int]@);
        let piece = trimmed(&pieces[i]);
        if piece.len() > 0 {
            match InventoryItem::parse_chars(&piece, format_error) {
                Ok(item) => {
                    proof {
                        lemma_views_push(out@, item);
                    }
                    out.push(item);
                },
                Err(e) => {
                    proof {
                        lemma_parse_pieces_error(all, format_error@, i + 1);
                    }
                    return Err(e);
                },
            }
        }
        i += 1;
    }
    assert(all.take(pieces.len() as int) == all);
    Ok(out)
}

impl Inventory {
    /// Appends the text form of the inventory to `out`.
    pub fn push_text(&self, out: &mut String)
        ensures
            final(out)@ == old(out)@ + inventory_text(self@),
    {
        push_items_text(out, &self.items, INVENTORY_SEPARATOR);
    }

    /// The text form of the inventory.
    pub fn to_string(&self) -> (out: String)
        ensures
            out@ == inventory_text(self@),
    {
        let mut out = String::new();
        self.push_text(&mut out);
        assert(Seq::<char>::empty() + inventory_text(self@) == inventory_text(self@));
        out
    }

    /// The inventory with the kind of each item escaped.
    pub fn escaped(&self) -> (r: Inventory)
        ensures
            r@ == escape_items(self@),
    {
        Inventory { items: escaped_items(&self.items) }
    }

    /// Reads an inventory from its text form.
    pub fn parse_chars(v: &Vec<char>) -> (r: Result<Inventory, String>)
        ensures
            result_view(r) == parse_inventory(v@),
    {
        match parse_items_chars(v, INVALID_INVENTORY_ITEM) {
            Ok(items) => Ok(Inventory { items }),
            Err(e) => Err(e),
        }
    }

    /// Reads an inventory from its text form.
    pub fn parse(s: &str) -> (r: Result<Inventory, String>)
        ensures
            result_view(r) == parse_inventory(s@),
    {
        let v = chars_of(s);
        Inventory::parse_chars(&v)
    }
}

impl Clone for Inventory {
    fn clone(&self) -> (r: Self)
        ensures
            r@ == self@,
    {
        Inventory { items: clone_items(&self.items) }
    }
}

impl std::str::FromStr for Inventory {
    type Err = String;

    fn from_str(s: &str) -> (r: Result<Self, String>)
        ensures
            result_view(r) == parse_inventory(s@),
    {
        Inventory::parse(s)
    }
}

impl Offer {
    /// Appends the text form of the offer to `out`.
    pub fn push_text(&self, out: &mut String)
        ensures
            final(out)@ == old(out)@ + offer_text(self@),
    {
        push_items_text(out, &self.offered, OFFER_SEPARATOR);
        out.append(OFFER_ARROW);
        push_items_text(out, &self.requested, OFFER_SEPARATOR);
        assert(out@ =~= old(out)@ + offer_text(self@));
    }

    /// The text form of the offer.
    pub fn to_string(&self) -> (out: String)
        ensures
            out@ == offer_text(self@),
    {
        let mut out = String::new();
        self.push_text(&mut out);
        assert(Seq::<char>::empty() + offer_text(self@) == offer_text(self@));
        out
    }

    /// The offer with the kind of each item escaped.
    pub fn escaped(&self) -> (r: Offer)
        ensures
            r@ == escape_offer(self@),
    {
        Offer { offered: escaped_items(&self.offered), requested: escaped_items(&self.requested) }
    }

    /// Reads an offer from its text form.
    pub fn parse_chars(v: &Vec<char>) -> (r: Result<Offer, String>)
        ensures
            result_view(r) == parse_offer(v@),
    {
        let sides = split_chars(v, '>');
        if sides.len() != 2 {
            return Err(INVALID_OFFER.to_owned());
        }
        assert(views(sides@)[0] == sides@[0]@);
        assert(views(sides@)[1] == sides@[1]@);
        let offered = match parse_items_chars(&sides[0], INVALID_OFFER_ITEM) {
            Ok(items) => items,
            Err(e) => {
                return Err(e);
            },
        };
        let requested = match parse_items_chars(&sides[1], INVALID_OFFER_ITEM) {
            Ok(items) => items,
            Err(e) => {
                return Err(e);
            },
        };
        Ok(Offer { offered, requested })
    }

    /// Reads an offer from its text form.
    pub fn parse(s: &str) -> (r: Result<Offer, String>)
        ensures
            result_view(r) == parse_offer(s@),
    {
        let v = chars_of(s);
        Offer::parse_chars(&v)
    }
}

impl Clone for Offer {
    fn clone(&self) -> (r: Self)
        ensures
            r@ == self@,
    {
        Offer { offered: clone_items(&self.offered), requested: clone_items(&self.requested) }
    }
}

impl std::str::FromStr for Offer {
    type Err = String;

    fn from_str(s: &str) -> (r: Result<Self, String>)
        ensures
            result_view(r) == parse_offer(s@),
    {
        Offer::parse(s)
    }
}

} // verus!
