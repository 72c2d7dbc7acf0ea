//! What is written can be read back: the proofs that reading the text form of
//! an item list, of an offer, of a list of peers and of the fields of a
//! message gives back what was written.
use crate::decimal::{all_digits, decimal, is_digit, lemma_decimal, lemma_parse_decimal};
use crate::escape::{
    escape, lemma_unescape_escape_then, lemma_unescape_plain_then, no_leading_semicolon,
    unescape,
};
use crate::offer::{
    escape_item, escape_items, escape_offer, inventory_text, item_text, item_texts, items_text,
    offer_text, parse_inventory, parse_item, parse_items, parse_offer, parse_pieces, ItemView,
    OfferView, INVALID_INVENTORY_ITEM, INVALID_OFFER_ITEM, INVENTORY_SEPARATOR, OFFER_ARROW,
    OFFER_SEPARATOR,
};
use crate::address::{address_text, lemma_address_text_lacks};
use crate::escape::lemma_unescape_escape;
use crate::parser::{decode_fields, lookup, parse_peers};
use crate::peer::{lemma_peer_round_trip, peer_text, PeerView, PEER_PREFIX};
use crate::protocol::{
    bool_text, destination, peer_texts, quoted, sender, wire_fields, Field, MessageView, EVERYONE, CMD_ANNOUNCE_NAME, CMD_BROADCAST,
    CMD_INVENTORY_INSPECTION, CMD_INVENTORY_SHOWCASE, CMD_MESSAGE, CMD_PEER_LIST,
    CMD_REJECT_CONNECTION, CMD_TRADE_CONFIRM, CMD_TRADE_OFFER, FALSE, KEY_CMD, KEY_CONTENT,
    KEY_DEST, KEY_INVENTORY, KEY_OFFER, KEY_PEERS, KEY_REM, KEY_RESPONSE, TRUE,
};
use crate::text::{
    all_space, is_space, is_trimmed, join, lemma_concat_lacks, lemma_single_lacks,
    lemma_split_first, lemma_split_last, lemma_split_prefixed, lemma_split_suffixed,
    lemma_split_without, lemma_trim_of_trimmed, lemma_trim_padded, split, trim,
};
use vstd::prelude::*;

verus! {

/// A kind of fish that can stand in a list of items: it has no whitespace
/// around it and holds none of `,`, `|` and `>`.
pub open spec fn clean_kind(kind: Seq<char>) -> bool {
    &&& is_trimmed(kind)
    &&& !kind.contains(',')
    &&& !kind.contains('|')
    &&& !kind.contains('>')
}

/// Items whose kinds are all clean.
pub open spec fn clean_items(items: Seq<ItemView>) -> bool {
    forall|i: int| 0 <= i < items.len() ==> clean_kind(#[trigger] items[i].fish_type)
}

proof fn lemma_digits_lack(s: Seq<char>, c: char)
    requires
        all_digits(s),
        !is_digit(c),
    ensures
        !s.contains(c),
{
}

proof fn lemma_space_lacks(s: Seq<char>, c: char)
    requires
        all_space(s),
        !is_space(c),
    ensures
        !s.contains(c),
{
}

/// The text of an item with a clean kind has no whitespace around it, holds
/// neither `,` nor `>`, and reads as the item.
pub proof fn lemma_item_round_trip(item: ItemView, format_error: Seq<char>)
    requires
        clean_kind(item.fish_type),
    ensures
        parse_item(item_text(item), format_error) == Ok::<ItemView, Seq<char>>(item),
        is_trimmed(item_text(item)),
        item_text(item).len() > 0,
        !item_text(item).contains(','),
        !item_text(item).contains('>'),
{
    let kind = item.fish_type;
    let number = decimal(item.quantity as nat);
    let text = item_text(item);
    lemma_decimal(item.quantity as nat);
    lemma_parse_decimal(item.quantity as nat, u32::MAX as nat);
    lemma_digits_lack(number, '|');
    lemma_digits_lack(number, ',');
    lemma_digits_lack(number, '>');
    lemma_split_first(kind, '|', number);
    lemma_split_without(number, '|');
    assert(split(text, '|') == seq![kind, number]);
    assert(is_digit(number.last()));
    lemma_trim_of_trimmed(number);
    lemma_trim_of_trimmed(kind);
    assert(text.last() == number.last());
    if kind.len() > 0 {
        assert(text[0] == kind[0]);
    } else {
        assert(text[0] == '|');
    }
    lemma_single_lacks('|', ',');
    lemma_single_lacks('|', '>');
    lemma_concat_lacks(kind, seq!['|'], ',');
    lemma_concat_lacks(kind + seq!['|'], number, ',');
    lemma_concat_lacks(kind, seq!['|'], '>');
    lemma_concat_lacks(kind + seq!['|'], number, '>');
}

/// Pieces that are, without the whitespace around them, the texts of clean
/// items read as those items.
proof fn lemma_parse_pieces_padded(
    pieces: Seq<Seq<char>>,
    items: Seq<ItemView>,
    format_error: Seq<char>,
)
    requires
        pieces.len() == items.len(),
        clean_items(items),
        forall|i: int| 0 <= i < pieces.len() ==> trim(#[trigger] pieces[i]) == item_text(items[i]),
    ensures
        parse_pieces(pieces, format_error) == Ok::<Seq<ItemView>, Seq<char>>(items),
    decreases pieces.len(),
{
    if pieces.len() == 0 {
        assert(items == Seq::<ItemView>::empty());
    } else {
        let rest = pieces.drop_last();
        let first_items = items.drop_last();
        assert forall|i: int| 0 <= i < rest.len() implies trim(#[trigger] rest[i]) == item_text(
            first_items[i],
        ) by {
            assert(rest[i] == pieces[i]);
        }
        assert forall|i: int| 0 <= i < first_items.len() implies clean_kind(
            #[trigger] first_items[i].fish_type,
        ) by {
            assert(first_items[i] == items[i]);
        }
        lemma_parse_pieces_padded(rest, first_items, format_error);
        assert(pieces.last() == pieces[pieces.len() - 1]);
        lemma_item_round_trip(items.last(), format_error);
        assert(first_items.push(items.last()) == items);
    }
}

/// The texts `texts`, each but the first with `pad` in front.
pub open spec fn padded(texts: Seq<Seq<char>>, pad: Seq<char>) -> Seq<Seq<char>> {
    Seq::new(
        texts.len(),
        |i: int|
            if i == 0 {
                texts[0]
            } else {
                pad + texts[i]
            },
    )
}

/// Texts without a `c`, joined by `c` and a padding without it, split at `c`
/// into the texts, each but the first with the padding in front.
proof fn lemma_split_join(texts: Seq<Seq<char>>, c: char, pad: Seq<char>)
    requires
        texts.len() > 0,
        !pad.contains(c),
        forall|i: int| 0 <= i < texts.len() ==> !(#[trigger] texts[i]).contains(c),
    ensures
        split(join(texts, seq![c] + pad), c) == padded(texts, pad),
    decreases texts.len(),
{
    let sep = seq![c] + pad;
    if texts.len() == 1 {
        lemma_split_without(texts[0], c);
        assert(padded(texts, pad) =~= seq![texts[0]]);
    } else {
        let rest = texts.drop_last();
        assert forall|i: int| 0 <= i < rest.len() implies !(#[trigger] rest[i]).contains(c) by {
            assert(rest[i] == texts[i]);
        }
        lemma_split_join(rest, c, pad);
        let last = texts.last();
        assert(last == texts[texts.len() - 1]);
        lemma_concat_lacks(pad, last, c);
        assert(join(texts, sep) == join(rest, sep) + seq![c] + (pad + last));
        lemma_split_last(join(rest, sep), c, pad + last);
        assert(padded(rest, pad).push(pad + last) =~= padded(texts, pad));
    }
}

/// Texts without a `c`, joined by a separator without it, hold no `c`.
proof fn lemma_join_lacks(texts: Seq<Seq<char>>, sep: Seq<char>, c: char)
    requires
        !sep.contains(c),
        forall|i: int| 0 <= i < texts.len() ==> !(#[trigger] texts[i]).contains(c),
    ensures
        !join(texts, sep).contains(c),
    decreases texts.len(),
{
    if texts.len() == 1 {
    } else if texts.len() > 1 {
        let rest = texts.drop_last();
        assert forall|i: int| 0 <= i < rest.len() implies !(#[trigger] rest[i]).contains(c) by {
            assert(rest[i] == texts[i]);
        }
        lemma_join_lacks(rest, sep, c);
        assert(texts.last() == texts[texts.len() - 1]);
        lemma_concat_lacks(join(rest, sep), sep, c);
        lemma_concat_lacks(join(rest, sep) + sep, texts.last(), c);
    }
}

/// A list of clean items, written with `,` and any whitespace between the
/// items and any whitespace around the list, reads as the list.
pub proof fn lemma_items_round_trip(
    items: Seq<ItemView>,
    pad: Seq<char>,
    before: Seq<char>,
    after: Seq<char>,
    format_error: Seq<char>,
)
    requires
        clean_items(items),
        all_space(pad),
        all_space(before),
        all_space(after),
    ensures
        parse_items(before + items_text(items, seq![','] + pad) + after, format_error) == Ok::<
            Seq<ItemView>,
            Seq<char>,
        >(items),
{
    let texts = item_texts(items);
    let sep = seq![','] + pad;
    let list = join(texts, sep);
    let whole = before + list + after;
    lemma_space_lacks(pad, ',');
    lemma_space_lacks(before, ',');
    lemma_space_lacks(after, ',');
    if items.len() == 0 {
        assert(list == Seq::<char>::empty());
        lemma_concat_lacks(before, list, ',');
        lemma_concat_lacks(before + list, after, ',');
        lemma_split_without(whole, ',');
        lemma_trim_padded(before, list, after);
        let pieces = seq![whole];
        assert(pieces.drop_last() == Seq::<Seq<char>>::empty());
        assert(pieces.last() == whole);
        assert(parse_pieces(pieces.drop_last(), format_error) == Ok::<Seq<ItemView>, Seq<char>>(
            Seq::empty(),
        ));
        assert(trim(whole).len() == 0);
        assert(items == Seq::<ItemView>::empty());
        assert(parse_pieces(pieces, format_error) == Ok::<Seq<ItemView>, Seq<char>>(items));
    } else {
        assert forall|i: int| 0 <= i < texts.len() implies !(#[trigger] texts[i]).contains(
            ',',
        ) by {
            lemma_item_round_trip(items[i], format_error);
        }
        lemma_split_join(texts, ',', pad);
        lemma_split_prefixed(before, list, ',');
        lemma_split_suffixed(before + list, after, ',');
        let pieces = split(whole, ',');
        let n = texts.len() as int;
        assert(pieces.len() == n);
        assert forall|i: int| 0 <= i < pieces.len() implies trim(#[trigger] pieces[i])
            == item_text(items[i]) by {
            lemma_item_round_trip(items[i], format_error);
            let head = if i == 0 {
                before
            } else {
                pad
            };
            let tail = if i == n - 1 {
                after
            } else {
                Seq::<char>::empty()
            };
            assert(texts[i] == item_text(items[i]));
            assert(pieces[i] =~= head + texts[i] + tail);
            lemma_trim_padded(head, texts[i], tail);
        }
        lemma_parse_pieces_padded(pieces, items, format_error);
        assert(parse_pieces(pieces, format_error) == Ok::<Seq<ItemView>, Seq<char>>(items));
    }
}

/// An inventory of clean items reads, from its text form, as itself.
pub proof fn lemma_inventory_round_trip(items: Seq<ItemView>)
    requires
        clean_items(items),
    ensures
        parse_inventory(inventory_text(items)) == Ok::<Seq<ItemView>, Seq<char>>(items),
{
    reveal_strlit(", ");
    assert(INVENTORY_SEPARATOR@ =~= seq![','] + seq![' ']);
    let empty = Seq::<char>::empty();
    lemma_items_round_trip(items, seq![' '], empty, empty, INVALID_INVENTORY_ITEM@);
    assert(empty + inventory_text(items) + empty =~= inventory_text(items));
}

/// The text of a list of clean items holds no `>`.
proof fn lemma_items_text_lacks_arrow(items: Seq<ItemView>, sep: Seq<char>)
    requires
        clean_items(items),
        !sep.contains('>'),
    ensures
        !items_text(items, sep).contains('>'),
{
    let texts = item_texts(items);
    assert forall|i: int| 0 <= i < texts.len() implies !(#[trigger] texts[i]).contains('>') by {
        lemma_item_round_trip(items[i], Seq::empty());
    }
    lemma_join_lacks(texts, sep, '>');
}

/// An offer of clean items reads, from its text form, as itself.
pub proof fn lemma_offer_round_trip(offer: OfferView)
    requires
        clean_items(offer.offered),
        clean_items(offer.requested),
    ensures
        parse_offer(offer_text(offer)) == Ok::<OfferView, Seq<char>>(offer),
{
    reveal_strlit(",");
    reveal_strlit(" > ");
    let empty = Seq::<char>::empty();
    let space = seq![' '];
    let comma = seq![','];
    assert(OFFER_SEPARATOR@ =~= comma + empty);
    assert(OFFER_ARROW@ =~= seq![' ', '>', ' ']);
    let left = items_text(offer.offered, comma + empty);
    let right = items_text(offer.requested, comma + empty);
    lemma_single_lacks(',', '>');
    lemma_single_lacks(' ', '>');
    lemma_items_text_lacks_arrow(offer.offered, comma + empty);
    lemma_items_text_lacks_arrow(offer.requested, comma + empty);
    lemma_concat_lacks(left, space, '>');
    lemma_concat_lacks(space, right, '>');
    assert(offer_text(offer) =~= (left + space) + seq!['>'] + (space + right));
    lemma_split_first(left + space, '>', space + right);
    lemma_split_without(space + right, '>');
    assert(split(offer_text(offer), '>') == seq![left + space, space + right]);
    lemma_items_round_trip(offer.offered, empty, empty, space, INVALID_OFFER_ITEM@);
    lemma_items_round_trip(offer.requested, empty, space, empty, INVALID_OFFER_ITEM@);
    assert(empty + left + space =~= left + space);
    assert(space + right + empty =~= space + right);
}

/// Text that holds neither `\` nor `;`.
pub open spec fn is_plain(s: Seq<char>) -> bool {
    !s.contains('\\') && !s.contains(';')
}

/// The text of a list of items with escaped kinds, followed by `tail`, is
/// unescaped to the text of the list as it was, followed by `tail` unescaped.
proof fn lemma_unescape_items(items: Seq<ItemView>, sep: Seq<char>, tail: Seq<char>)
    requires
        sep.len() > 0,
        is_plain(sep),
        no_leading_semicolon(tail),
    ensures
        unescape(items_text(escape_items(items), sep) + tail) == items_text(items, sep)
            + unescape(tail),
    decreases items.len(),
{
    let escaped = escape_items(items);
    if items.len() == 0 {
        assert(items_text(escaped, sep) + tail == tail);
        assert(items_text(items, sep) + unescape(tail) == unescape(tail));
    } else {
        let last = items.last();
        let number = decimal(last.quantity as nat);
        let rest = items.drop_last();
        lemma_decimal(last.quantity as nat);
        lemma_digits_lack(number, '\\');
        lemma_single_lacks('|', '\\');
        lemma_concat_lacks(seq!['|'], number, '\\');
        let behind = seq!['|'] + number;
        assert(escaped.last() == escape_item(last));
        assert(item_texts(escaped).last() == escape(last.fish_type) + seq!['|'] + number);
        assert(item_texts(items).last() == last.fish_type + seq!['|'] + number);
        // The last item, one part after the other.
        lemma_unescape_plain_then(behind, tail);
        assert((behind + tail)[0] == '|');
        lemma_unescape_escape_then(last.fish_type, behind + tail);
        let last_text = escape(last.fish_type) + seq!['|'] + number;
        assert(last_text + tail =~= escape(last.fish_type) + (behind + tail));
        assert(unescape(last_text + tail) =~= (last.fish_type + seq!['|'] + number) + unescape(
            tail,
        ));
        assert(escaped.drop_last() =~= escape_items(rest));
        assert(item_texts(escaped).drop_last() =~= item_texts(escape_items(rest)));
        assert(item_texts(items).drop_last() =~= item_texts(rest));
        if items.len() == 1 {
        } else {
            let new_tail = sep + (last_text + tail);
            assert(sep.contains(sep[0]));
            assert(new_tail[0] == sep[0]);
            lemma_unescape_items(rest, sep, new_tail);
            lemma_unescape_plain_then(sep, last_text + tail);
            assert(items_text(escaped, sep) + tail =~= items_text(escape_items(rest), sep)
                + new_tail);
            assert(items_text(items, sep) + unescape(tail) =~= items_text(rest, sep) + (sep + ((
            last.fish_type + seq!['|'] + number) + unescape(tail))));
        }
    }
}

/// The text of an inventory with escaped kinds is unescaped to the text of
/// the inventory as it was.
pub proof fn lemma_unescape_inventory(items: Seq<ItemView>)
    ensures
        unescape(inventory_text(escape_items(items))) == inventory_text(items),
{
    reveal_strlit(", ");
    let sep = INVENTORY_SEPARATOR@;
    assert(sep =~= seq![',', ' ']);
    let empty = Seq::<char>::empty();
    lemma_unescape_items(items, sep, empty);
    assert(inventory_text(escape_items(items)) + empty =~= inventory_text(escape_items(items)));
    assert(inventory_text(items) + unescape(empty) =~= inventory_text(items));
}

/// The text of an offer with escaped kinds is unescaped to the text of the
/// offer as it was.
pub proof fn lemma_unescape_offer(offer: OfferView)
    ensures
        unescape(offer_text(escape_offer(offer))) == offer_text(offer),
{
    reveal_strlit(",");
    reveal_strlit(" > ");
    let sep = OFFER_SEPARATOR@;
    let arrow = OFFER_ARROW@;
    assert(sep =~= seq![',']);
    assert(arrow =~= seq![' ', '>', ' ']);
    let empty = Seq::<char>::empty();
    let right = items_text(escape_items(offer.requested), sep);
    lemma_unescape_items(offer.requested, sep, empty);
    assert(right + empty =~= right);
    assert(items_text(offer.requested, sep) + unescape(empty) =~= items_text(
        offer.requested,
        sep,
    ));
    lemma_unescape_plain_then(arrow, right);
    assert((arrow + right)[0] == ' ');
    lemma_unescape_items(offer.offered, sep, arrow + right);
    assert(offer_text(escape_offer(offer)) =~= items_text(escape_items(offer.offered), sep) + (
    arrow + right));
    assert(offer_text(offer) =~= items_text(offer.offered, sep) + (arrow + items_text(
        offer.requested,
        sep,
    )));
}

/// A peer that can stand in a list of peers: its username holds neither `@` nor `,`.
pub open spec fn clean_peer(peer: PeerView) -> bool {
    !peer.username.contains('@') && !peer.username.contains(',')
}

/// The text of a clean peer has no whitespace around it and holds no `,`.
proof fn lemma_peer_text(peer: PeerView)
    requires
        clean_peer(peer),
    ensures
        is_trimmed(peer_text(peer)),
        peer_text(peer).len() > 0,
        !peer_text(peer).contains(','),
{
    reveal_strlit("fnp://");
    let prefix = PEER_PREFIX@;
    let address = address_text(peer.address);
    let number = decimal(peer.address.port as nat);
    let text = peer_text(peer);
    lemma_decimal(peer.address.port as nat);
    assert(text[0] == 'f');
    assert(text.last() == number.last());
    assert(is_digit(number.last()));
    lemma_address_text_lacks(peer.address, ',');
    assert(!prefix.contains(','));
    lemma_single_lacks('@', ',');
    lemma_concat_lacks(prefix, peer.username, ',');
    lemma_concat_lacks(prefix + peer.username, seq!['@'], ',');
    lemma_concat_lacks(prefix + peer.username + seq!['@'], address, ',');
}

/// The texts of clean peers read as those peers.
proof fn lemma_parse_peers(peers: Seq<PeerView>)
    requires
        forall|i: int| 0 <= i < peers.len() ==> clean_peer(#[trigger] peers[i]),
    ensures
        parse_peers(peer_texts(peers)) == Ok::<Seq<PeerView>, Seq<char>>(peers),
    decreases peers.len(),
{
    let texts = peer_texts(peers);
    if peers.len() == 0 {
        assert(peers == Seq::<PeerView>::empty());
    } else {
        let rest = peers.drop_last();
        assert forall|i: int| 0 <= i < rest.len() implies clean_peer(#[trigger] rest[i]) by {
            assert(rest[i] == peers[i]);
        }
        lemma_parse_peers(rest);
        assert(texts.drop_last() =~= peer_texts(rest));
        assert(texts.last() == peer_text(peers.last()));
        assert(peers.last() == peers[peers.len() - 1]);
        lemma_peer_text(peers.last());
        lemma_trim_of_trimmed(peer_text(peers.last()));
        lemma_peer_round_trip(peers.last());
        assert(rest.push(peers.last()) == peers);
    }
}

/// A list of one or more clean peers reads, from its text form, as itself.
pub proof fn lemma_peers_round_trip(peers: Seq<PeerView>)
    requires
        peers.len() > 0,
        forall|i: int| 0 <= i < peers.len() ==> clean_peer(#[trigger] peers[i]),
    ensures
        parse_peers(split(join(peer_texts(peers), seq![',']), ',')) == Ok::<
            Seq<PeerView>,
            Seq<char>,
        >(peers),
{
    let texts = peer_texts(peers);
    let empty = Seq::<char>::empty();
    assert forall|i: int| 0 <= i < texts.len() implies !(#[trigger] texts[i]).contains(',') by {
        lemma_peer_text(peers[i]);
    }
    lemma_split_join(texts, ',', empty);
    assert(seq![','] + empty =~= seq![',']);
    assert(padded(texts, empty) =~= texts) by {
        assert forall|i: int| 0 <= i < texts.len() implies padded(texts, empty)[i]
            == texts[i] by {
            assert(empty + texts[i] =~= texts[i]);
        }
    }
    lemma_parse_peers(peers);
}

/// The keys of the fields differ from one another.
proof fn lemma_keys_differ()
    ensures
        KEY_REM@ != KEY_DEST@,
        KEY_REM@ != KEY_CMD@,
        KEY_REM@ != KEY_CONTENT@,
        KEY_REM@ != KEY_OFFER@,
        KEY_REM@ != KEY_RESPONSE@,
        KEY_REM@ != KEY_INVENTORY@,
        KEY_REM@ != KEY_PEERS@,
        KEY_DEST@ != KEY_CMD@,
        KEY_DEST@ != KEY_CONTENT@,
        KEY_DEST@ != KEY_OFFER@,
        KEY_DEST@ != KEY_RESPONSE@,
        KEY_DEST@ != KEY_INVENTORY@,
        KEY_DEST@ != KEY_PEERS@,
        KEY_CMD@ != KEY_CONTENT@,
        KEY_CMD@ != KEY_OFFER@,
        KEY_CMD@ != KEY_RESPONSE@,
        KEY_CMD@ != KEY_INVENTORY@,
        KEY_CMD@ != KEY_PEERS@,
        KEY_RESPONSE@ != KEY_OFFER@,
{
    reveal_strlit("REM");
    reveal_strlit("DEST");
    reveal_strlit("CMD");
    reveal_strlit("Content");
    reveal_strlit("Offer");
    reveal_strlit("Response");
    reveal_strlit("Invetory");
    reveal_strlit("Peers");
    assert(KEY_REM@.len() == 3);
    assert(KEY_DEST@.len() == 4);
    assert(KEY_CMD@.len() == 3);
    assert(KEY_CONTENT@.len() == 7);
    assert(KEY_OFFER@.len() == 5);
    assert(KEY_RESPONSE@.len() == 8);
    assert(KEY_INVENTORY@.len() == 8);
    assert(KEY_PEERS@.len() == 5);
    assert(KEY_REM@[0] == 'R');
    assert(KEY_CMD@[0] == 'C');
}

/// The value that two fields have for a key.
proof fn lemma_lookup2(a: Field, b: Field, key: Seq<char>)
    ensures
        lookup(seq![a, b], key) == (if b.0 == key {
            Some(b.1)
        } else if a.0 == key {
            Some(a.1)
        } else {
            None
        }),
{
    reveal_with_fuel(lookup, 3);
    assert(seq![a, b].drop_last() == seq![a]);
    assert(seq![a].drop_last() == Seq::<Field>::empty());
}

/// The value that three fields have for a key.
proof fn lemma_lookup3(a: Field, b: Field, c: Field, key: Seq<char>)
    ensures
        lookup(seq![a, b, c], key) == (if c.0 == key {
            Some(c.1)
        } else {
            lookup(seq![a, b], key)
        }),
{
    assert(seq![a, b, c].drop_last() == seq![a, b]);
}

/// The value that four fields have for a key.
proof fn lemma_lookup4(a: Field, b: Field, c: Field, d: Field, key: Seq<char>)
    ensures
        lookup(seq![a, b, c, d], key) == (if d.0 == key {
            Some(d.1)
        } else {
            lookup(seq![a, b, c], key)
        }),
{
    assert(seq![a, b, c, d].drop_last() == seq![a, b, c]);
}

/// The value that five fields have for a key.
proof fn lemma_lookup5(a: Field, b: Field, c: Field, d: Field, e: Field, key: Seq<char>)
    ensures
        lookup(seq![a, b, c, d, e], key) == (if e.0 == key {
            Some(e.1)
        } else {
            lookup(seq![a, b, c, d], key)
        }),
{
    assert(seq![a, b, c, d, e].drop_last() == seq![a, b, c, d]);
}

/// What the fields of a message with a destination and a command begin
/// with: the sender, the destination and the command can be looked up, and
/// no other key of the protocol.
proof fn lemma_addressed(rem: Seq<char>, dest: Seq<char>, cmd: Seq<char>)
    ensures
        ({
            let fields = seq![(KEY_REM@, rem), (KEY_DEST@, dest), (KEY_CMD@, cmd)];
            &&& lookup(fields, KEY_REM@) == Some(rem)
            &&& lookup(fields, KEY_DEST@) == Some(dest)
            &&& lookup(fields, KEY_CMD@) == Some(cmd)
            &&& lookup(fields, KEY_CONTENT@) is None
            &&& lookup(fields, KEY_OFFER@) is None
            &&& lookup(fields, KEY_RESPONSE@) is None
            &&& lookup(fields, KEY_INVENTORY@) is None
            &&& lookup(fields, KEY_PEERS@) is None
        }),
{
    lemma_keys_differ();
    let a = (KEY_REM@, rem);
    let b = (KEY_DEST@, dest);
    let c = (KEY_CMD@, cmd);
    lemma_lookup2(a, b, KEY_REM@);
    lemma_lookup2(a, b, KEY_DEST@);
    lemma_lookup2(a, b, KEY_CMD@);
    lemma_lookup2(a, b, KEY_CONTENT@);
    lemma_lookup2(a, b, KEY_OFFER@);
    lemma_lookup2(a, b, KEY_RESPONSE@);
    lemma_lookup2(a, b, KEY_INVENTORY@);
    lemma_lookup2(a, b, KEY_PEERS@);
    lemma_lookup3(a, b, c, KEY_REM@);
    lemma_lookup3(a, b, c, KEY_DEST@);
    lemma_lookup3(a, b, c, KEY_CMD@);
    lemma_lookup3(a, b, c, KEY_CONTENT@);
    lemma_lookup3(a, b, c, KEY_OFFER@);
    lemma_lookup3(a, b, c, KEY_RESPONSE@);
    lemma_lookup3(a, b, c, KEY_INVENTORY@);
    lemma_lookup3(a, b, c, KEY_PEERS@);
}

/// The same with one more field, whose key is none of the first three.
proof fn lemma_addressed_with(
    rem: Seq<char>,
    dest: Seq<char>,
    cmd: Seq<char>,
    key: Seq<char>,
    value: Seq<char>,
)
    requires
        key != KEY_REM@,
        key != KEY_DEST@,
        key != KEY_CMD@,
    ensures
        ({
            let fields = seq![(KEY_REM@, rem), (KEY_DEST@, dest), (KEY_CMD@, cmd), (key, value)];
            &&& lookup(fields, KEY_REM@) == Some(rem)
            &&& lookup(fields, KEY_DEST@) == Some(dest)
            &&& lookup(fields, KEY_CMD@) == Some(cmd)
            &&& lookup(fields, key) == Some(value)
        }),
{
    lemma_addressed(rem, dest, cmd);
    let a = (KEY_REM@, rem);
    let b = (KEY_DEST@, dest);
    let c = (KEY_CMD@, cmd);
    let d = (key, value);
    lemma_lookup4(a, b, c, d, KEY_REM@);
    lemma_lookup4(a, b, c, d, KEY_DEST@);
    lemma_lookup4(a, b, c, d, KEY_CMD@);
    lemma_lookup4(a, b, c, d, key);
}

/// The names of the commands have no whitespace around them and differ from one another.
proof fn lemma_commands_differ()
    ensures
        is_trimmed(CMD_MESSAGE@),
        is_trimmed(CMD_BROADCAST@),
        is_trimmed(CMD_TRADE_OFFER@),
        is_trimmed(CMD_TRADE_CONFIRM@),
        is_trimmed(CMD_INVENTORY_SHOWCASE@),
        is_trimmed(CMD_INVENTORY_INSPECTION@),
        is_trimmed(CMD_ANNOUNCE_NAME@),
        is_trimmed(CMD_PEER_LIST@),
        is_trimmed(CMD_REJECT_CONNECTION@),
        CMD_MESSAGE@.len() == 7,
        CMD_BROADCAST@.len() == 9,
        CMD_TRADE_OFFER@.len() == 10,
        CMD_TRADE_CONFIRM@.len() == 12,
        CMD_INVENTORY_SHOWCASE@.len() == 16,
        CMD_INVENTORY_INSPECTION@.len() == 19,
        CMD_ANNOUNCE_NAME@.len() == 12,
        CMD_PEER_LIST@.len() == 8,
        CMD_REJECT_CONNECTION@.len() == 16,
        CMD_TRADE_CONFIRM@[0] != CMD_ANNOUNCE_NAME@[0],
        CMD_INVENTORY_SHOWCASE@[0] != CMD_REJECT_CONNECTION@[0],
{
    reveal_strlit("Message");
    reveal_strlit("Broadcast");
    reveal_strlit("TradeOffer");
    reveal_strlit("TradeConfirm");
    reveal_strlit("InvetoryShowcase");
    reveal_strlit("InventoryInspection");
    reveal_strlit("AnnounceName");
    reveal_strlit("PeerList");
    reveal_strlit("RejectConnection");
}

/// The two answers to an offer are written differently.
proof fn lemma_true_false()
    ensures
        TRUE@ != FALSE@,
{
    reveal_strlit("true");
    reveal_strlit("false");
    assert(TRUE@.len() == 4);
    assert(FALSE@.len() == 5);
}

/// A message whose fields can be read back: no username in it holds `@`, the
/// items of an offer or an inventory are clean, and a list of peers is not
/// empty and its peers are clean.
pub open spec fn encodable(m: MessageView) -> bool {
    &&& !sender(m).username.contains('@')
    &&& match destination(m) {
        Some(dest) => !dest.username.contains('@'),
        None => true,
    }
    &&& match m {
        MessageView::TradeOffer { offer, .. } => clean_items(offer.offered) && clean_items(
            offer.requested,
        ),
        MessageView::TradeConfirm { offer, .. } => clean_items(offer.offered) && clean_items(
            offer.requested,
        ),
        MessageView::InventoryShowcase { inventory, .. } => clean_items(inventory),
        MessageView::PeerList { peers, .. } => peers.len() > 0 && forall|i: int|
            0 <= i < peers.len() ==> clean_peer(#[trigger] peers[i]),
        _ => true,
    }
}

/// What stands between the quotes of the free text that `m` is written with, if it has any.
pub open spec fn quoted_part(m: MessageView) -> Option<Seq<char>> {
    match m {
        MessageView::Message { content, .. } => Some(escape(content)),
        MessageView::Broadcast { content, .. } => Some(escape(content)),
        _ => None,
    }
}

proof fn lemma_message_fields(rem: PeerView, dest: PeerView, content: Seq<char>)
    requires
        !rem.username.contains('@'),
        !dest.username.contains('@'),
    ensures
        decode_fields(
            wire_fields(MessageView::Message { rem, dest, content }),
            Some(escape(content)),
        ) == Ok::<MessageView, Seq<char>>(MessageView::Message { rem, dest, content }),
{
    lemma_keys_differ();
    lemma_commands_differ();
    lemma_addressed_with(
        peer_text(rem),
        peer_text(dest),
        CMD_MESSAGE@,
        KEY_CONTENT@,
        quoted(content),
    );
    lemma_peer_round_trip(rem);
    lemma_peer_round_trip(dest);
    lemma_trim_of_trimmed(CMD_MESSAGE@);
    lemma_unescape_escape(content);
}

proof fn lemma_broadcast_fields(rem: PeerView, content: Seq<char>)
    requires
        !rem.username.contains('@'),
    ensures
        decode_fields(
            wire_fields(MessageView::Broadcast { rem, content }),
            Some(escape(content)),
        ) == Ok::<MessageView, Seq<char>>(MessageView::Broadcast { rem, content }),
{
    lemma_keys_differ();
    lemma_commands_differ();
    lemma_addressed_with(
        peer_text(rem),
        EVERYONE@,
        CMD_BROADCAST@,
        KEY_CONTENT@,
        quoted(content),
    );
    lemma_peer_round_trip(rem);
    lemma_trim_of_trimmed(CMD_BROADCAST@);
    lemma_unescape_escape(content);
}

proof fn lemma_trade_offer_fields(
    rem: PeerView,
    dest: PeerView,
    offer: OfferView,
    quoted: Option<Seq<char>>,
)
    requires
        !rem.username.contains('@'),
        !dest.username.contains('@'),
        clean_items(offer.offered),
        clean_items(offer.requested),
    ensures
        decode_fields(wire_fields(MessageView::TradeOffer { rem, dest, offer }), quoted) == Ok::<
            MessageView,
            Seq<char>,
        >(MessageView::TradeOffer { rem, dest, offer }),
{
    lemma_keys_differ();
    lemma_commands_differ();
    lemma_addressed_with(
        peer_text(rem),
        peer_text(dest),
        CMD_TRADE_OFFER@,
        KEY_OFFER@,
        offer_text(escape_offer(offer)),
    );
    lemma_peer_round_trip(rem);
    lemma_peer_round_trip(dest);
    lemma_trim_of_trimmed(CMD_TRADE_OFFER@);
    lemma_unescape_offer(offer);
    lemma_offer_round_trip(offer);
}

proof fn lemma_trade_confirm_fields(
    rem: PeerView,
    dest: PeerView,
    response: bool,
    offer: OfferView,
    quoted: Option<Seq<char>>,
)
    requires
        !rem.username.contains('@'),
        !dest.username.contains('@'),
        clean_items(offer.offered),
        clean_items(offer.requested),
    ensures
        decode_fields(
            wire_fields(MessageView::TradeConfirm { rem, dest, response, offer }),
            quoted,
        ) == Ok::<MessageView, Seq<char>>(MessageView::TradeConfirm { rem, dest, response, offer }),
{
    lemma_keys_differ();
    lemma_commands_differ();
    lemma_true_false();
    let a = (KEY_REM@, peer_text(rem));
    let b = (KEY_DEST@, peer_text(dest));
    let c = (KEY_CMD@, CMD_TRADE_CONFIRM@);
    let d = (KEY_RESPONSE@, bool_text(response));
    let e = (KEY_OFFER@, offer_text(escape_offer(offer)));
    lemma_addressed_with(a.1, b.1, c.1, d.0, d.1);
    lemma_lookup5(a, b, c, d, e, KEY_REM@);
    lemma_lookup5(a, b, c, d, e, KEY_DEST@);
    lemma_lookup5(a, b, c, d, e, KEY_CMD@);
    lemma_lookup5(a, b, c, d, e, KEY_RESPONSE@);
    lemma_lookup5(a, b, c, d, e, KEY_OFFER@);
    lemma_peer_round_trip(rem);
    lemma_peer_round_trip(dest);
    lemma_trim_of_trimmed(CMD_TRADE_CONFIRM@);
    lemma_unescape_offer(offer);
    lemma_offer_round_trip(offer);
}

proof fn lemma_inventory_showcase_fields(
    rem: PeerView,
    dest: PeerView,
    inventory: Seq<ItemView>,
    quoted: Option<Seq<char>>,
)
    requires
        !rem.username.contains('@'),
        !dest.username.contains('@'),
        clean_items(inventory),
    ensures
        decode_fields(
            wire_fields(MessageView::InventoryShowcase { rem, dest, inventory }),
            quoted,
        ) == Ok::<MessageView, Seq<char>>(MessageView::InventoryShowcase { rem, dest, inventory }),
{
    lemma_keys_differ();
    lemma_commands_differ();
    lemma_addressed_with(
        peer_text(rem),
        peer_text(dest),
        CMD_INVENTORY_SHOWCASE@,
        KEY_INVENTORY@,
        inventory_text(escape_items(inventory)),
    );
    lemma_peer_round_trip(rem);
    lemma_peer_round_trip(dest);
    lemma_trim_of_trimmed(CMD_INVENTORY_SHOWCASE@);
    lemma_unescape_inventory(inventory);
    lemma_inventory_round_trip(inventory);
}

proof fn lemma_plain_fields(rem: PeerView, dest: PeerView, quoted: Option<Seq<char>>)
    requires
        !rem.username.contains('@'),
        !dest.username.contains('@'),
    ensures
        decode_fields(wire_fields(MessageView::InventoryInspection { rem, dest }), quoted) == Ok::<
            MessageView,
            Seq<char>,
        >(MessageView::InventoryInspection { rem, dest }),
        decode_fields(wire_fields(MessageView::RejectConnection { rem, dest }), quoted) == Ok::<
            MessageView,
            Seq<char>,
        >(MessageView::RejectConnection { rem, dest }),
        decode_fields(wire_fields(MessageView::AnnounceName { rem }), quoted) == Ok::<
            MessageView,
            Seq<char>,
        >(MessageView::AnnounceName { rem }),
{
    lemma_keys_differ();
    lemma_commands_differ();
    lemma_addressed(peer_text(rem), peer_text(dest), CMD_INVENTORY_INSPECTION@);
    lemma_addressed(peer_text(rem), peer_text(dest), CMD_REJECT_CONNECTION@);
    lemma_lookup2((KEY_REM@, peer_text(rem)), (KEY_CMD@, CMD_ANNOUNCE_NAME@), KEY_REM@);
    lemma_lookup2((KEY_REM@, peer_text(rem)), (KEY_CMD@, CMD_ANNOUNCE_NAME@), KEY_CMD@);
    lemma_peer_round_trip(rem);
    lemma_peer_round_trip(dest);
    lemma_trim_of_trimmed(CMD_INVENTORY_INSPECTION@);
    lemma_trim_of_trimmed(CMD_REJECT_CONNECTION@);
    lemma_trim_of_trimmed(CMD_ANNOUNCE_NAME@);
}

proof fn lemma_peer_list_fields(
    rem: PeerView,
    dest: PeerView,
    peers: Seq<PeerView>,
    quoted: Option<Seq<char>>,
)
    requires
        !rem.username.contains('@'),
        !dest.username.contains('@'),
        peers.len() > 0,
        forall|i: int| 0 <= i < peers.len() ==> clean_peer(#[trigger] peers[i]),
    ensures
        decode_fields(wire_fields(MessageView::PeerList { rem, dest, peers }), quoted) == Ok::<
            MessageView,
            Seq<char>,
        >(MessageView::PeerList { rem, dest, peers }),
{
    lemma_keys_differ();
    lemma_commands_differ();
    lemma_addressed_with(
        peer_text(rem),
        peer_text(dest),
        CMD_PEER_LIST@,
        KEY_PEERS@,
        join(peer_texts(peers), seq![',']),
    );
    lemma_peer_round_trip(rem);
    lemma_peer_round_trip(dest);
    lemma_trim_of_trimmed(CMD_PEER_LIST@);
    lemma_peers_round_trip(peers);
}

/// Reading the fields that a message is written with gives the message
/// back. For a message with free text, what stands between the quotes of its
/// field is the escaped text that was written there. This is stated for the
/// messages whose usernames and kinds of fish hold none of the characters
/// that separate the parts of a field.
pub proof fn lemma_fields_round_trip(m: MessageView, quoted: Option<Seq<char>>)
    requires
        encodable(m),
        m is Message || m is Broadcast ==> quoted == quoted_part(m),
    ensures
        decode_fields(wire_fields(m), quoted) == Ok::<MessageView, Seq<char>>(m),
{
    match m {
        MessageView::Message { rem, dest, content } => lemma_message_fields(rem, dest, content),
        MessageView::Broadcast { rem, content } => lemma_broadcast_fields(rem, content),
        MessageView::TradeOffer { rem, dest, offer } => lemma_trade_offer_fields(
            rem,
            dest,
            offer,
            quoted,
        ),
        MessageView::TradeConfirm { rem, dest, response, offer } => lemma_trade_confirm_fields(
            rem,
            dest,
            response,
            offer,
            quoted,
        ),
        MessageView::InventoryInspection { rem, dest } => lemma_plain_fields(rem, dest, quoted),
        MessageView::InventoryShowcase { rem, dest, inventory } => {
            lemma_inventory_showcase_fields(rem, dest, inventory, quoted)
        },
        MessageView::AnnounceName { rem } => lemma_plain_fields(rem, rem, quoted),
        MessageView::PeerList { rem, dest, peers } => lemma_peer_list_fields(
            rem,
            dest,
            peers,
            quoted,
        ),
        MessageView::RejectConnection { rem, dest } => lemma_plain_fields(rem, dest, quoted),
    }
}

/// The fields `fields` as they are found in a line: each value without the
/// whitespace around it.
pub open spec fn trimmed_fields(fields: Seq<Field>) -> Seq<Field> {
    Seq::new(fields.len(), |i: int| (fields[i].0, trim(fields[i].1)))
}

/// The text form of a peer has no whitespace around it.
proof fn lemma_peer_text_trimmed(peer: PeerView)
    ensures
        trim(peer_text(peer)) == peer_text(peer),
{
    reveal_strlit("fnp://");
    let number = decimal(peer.address.port as nat);
    let text = peer_text(peer);
    lemma_decimal(peer.address.port as nat);
    assert(text[0] == 'f');
    assert(text.last() == number.last());
    assert(is_digit(number.last()));
    lemma_trim_of_trimmed(text);
}

/// Texts that are not empty and have no whitespace around them, joined, have
/// no whitespace around them.
proof fn lemma_join_trimmed(texts: Seq<Seq<char>>, sep: Seq<char>)
    requires
        forall|i: int|
            0 <= i < texts.len() ==> (#[trigger] texts[i]).len() > 0 && is_trimmed(texts[i]),
    ensures
        is_trimmed(join(texts, sep)),
        texts.len() > 0 ==> join(texts, sep).len() > 0 && join(texts, sep)[0] == texts[0][0]
            && join(texts, sep).last() == texts.last().last(),
    decreases texts.len(),
{
    if texts.len() > 1 {
        let rest = texts.drop_last();
        assert forall|i: int| 0 <= i < rest.len() implies (#[trigger] rest[i]).len() > 0
            && is_trimmed(rest[i]) by {
            assert(rest[i] == texts[i]);
        }
        lemma_join_trimmed(rest, sep);
        assert(texts.last() == texts[texts.len() - 1]);
        assert(rest[0] == texts[0]);
        let whole = join(rest, sep) + sep + texts.last();
        assert(whole[0] == join(rest, sep)[0]);
        assert(whole.last() == texts.last().last());
    } else if texts.len() == 1 {
        assert(texts.last() == texts[0]);
    }
}

/// The texts of clean items with escaped kinds are not empty and have no
/// whitespace around them.
proof fn lemma_escaped_texts_trimmed(items: Seq<ItemView>)
    requires
        clean_items(items),
    ensures
        forall|i: int|
            0 <= i < items.len() ==> (#[trigger] item_texts(escape_items(items))[i]).len() > 0
                && is_trimmed(item_texts(escape_items(items))[i]),
{
    assert forall|i: int| 0 <= i < items.len() implies (#[trigger] item_texts(
        escape_items(items),
    )[i]).len() > 0 && is_trimmed(item_texts(escape_items(items))[i]) by {
        let kind = items[i].fish_type;
        let number = decimal(items[i].quantity as nat);
        let text = item_texts(escape_items(items))[i];
        assert(text == escape(kind) + seq!['|'] + number);
        lemma_decimal(items[i].quantity as nat);
        assert(text.last() == number.last());
        assert(is_digit(number.last()));
        if kind.len() > 0 {
            if kind[0] == ';' {
                assert(escape(kind)[0] == '\\');
            } else {
                assert(escape(kind)[0] == kind[0]);
            }
            assert(text[0] == escape(kind)[0]);
        } else {
            assert(text[0] == '|');
        }
    }
}

/// The offer of clean items can be read from its field as it is found in a
/// line: with escaped kinds, and without the whitespace around it.
proof fn lemma_offer_field(offer: OfferView)
    requires
        clean_items(offer.offered),
        clean_items(offer.requested),
    ensures
        parse_offer(unescape(trim(offer_text(escape_offer(offer))))) == Ok::<
            OfferView,
            Seq<char>,
        >(offer),
{
    reveal_strlit(",");
    reveal_strlit(" > ");
    let sep = OFFER_SEPARATOR@;
    let arrow = OFFER_ARROW@;
    assert(sep =~= seq![',']);
    assert(arrow =~= seq![' ', '>', ' ']);
    let empty = Seq::<char>::empty();
    let space = seq![' '];
    let left = items_text(escape_items(offer.offered), sep);
    let right = items_text(escape_items(offer.requested), sep);
    let left0 = items_text(offer.offered, sep);
    let right0 = items_text(offer.requested, sep);
    let text = offer_text(escape_offer(offer));
    lemma_escaped_texts_trimmed(offer.offered);
    lemma_escaped_texts_trimmed(offer.requested);
    lemma_join_trimmed(item_texts(escape_items(offer.offered)), sep);
    lemma_join_trimmed(item_texts(escape_items(offer.requested)), sep);
    if offer.offered.len() > 0 && offer.requested.len() > 0 {
        assert(text[0] == left[0]);
        assert(text.last() == right.last());
        lemma_trim_of_trimmed(text);
        lemma_unescape_offer(offer);
        lemma_offer_round_trip(offer);
    } else {
        // What is left of the text once the whitespace around it is gone.
        let front = if offer.offered.len() > 0 {
            left + space
        } else {
            empty
        };
        let back = if offer.requested.len() > 0 {
            space + right
        } else {
            empty
        };
        let core = front + seq!['>'] + back;
        let before = if offer.offered.len() > 0 {
            empty
        } else {
            space
        };
        let after = if offer.requested.len() > 0 {
            empty
        } else {
            space
        };
        assert(left.len() == 0 <==> offer.offered.len() == 0);
        assert(right.len() == 0 <==> offer.requested.len() == 0);
        assert(text =~= before + core + after);
        assert(core.len() > 0);
        if offer.offered.len() > 0 {
            assert(core[0] == left[0]);
        } else {
            assert(core[0] == '>');
        }
        if offer.requested.len() > 0 {
            assert(core.last() == right.last());
        } else {
            assert(core.last() == '>');
        }
        lemma_trim_padded(before, core, after);
        assert(trim(text) == core);
        // The same text with the kinds as they were.
        let front0 = if offer.offered.len() > 0 {
            left0 + space
        } else {
            empty
        };
        let back0 = if offer.requested.len() > 0 {
            space + right0
        } else {
            empty
        };
        lemma_single_lacks(' ', '\\');
        lemma_single_lacks('>', '\\');
        assert(unescape(empty) == empty);
        // From the back: the requested items, the space, the arrow, the space, the offered items.
        lemma_unescape_items(offer.requested, sep, empty);
        assert(right + empty =~= right);
        assert(right0 + unescape(empty) =~= right0);
        lemma_unescape_plain_then(space, right);
        assert(unescape(back) == back0);
        lemma_unescape_plain_then(seq!['>'], back);
        let behind = seq!['>'] + back;
        assert(behind[0] == '>');
        lemma_unescape_plain_then(space, behind);
        assert((space + behind)[0] == ' ');
        lemma_unescape_items(offer.offered, sep, space + behind);
        assert(core =~= front + behind);
        assert(unescape(core) =~= front0 + seq!['>'] + back0) by {
            if offer.offered.len() > 0 {
                assert(core =~= left + (space + behind));
            } else {
                assert(core =~= behind);
            }
        }
        // The two sides read as the items.
        lemma_single_lacks(',', '>');
        lemma_single_lacks(' ', '>');
        lemma_items_text_lacks_arrow(offer.offered, seq![','] + empty);
        lemma_items_text_lacks_arrow(offer.requested, seq![','] + empty);
        assert(seq![','] + empty =~= sep);
        lemma_concat_lacks(left0, space, '>');
        lemma_concat_lacks(space, right0, '>');
        lemma_split_first(front0, '>', back0);
        lemma_split_without(back0, '>');
        assert(split(unescape(core), '>') == seq![front0, back0]);
        let behind_offered = if offer.offered.len() > 0 {
            space
        } else {
            empty
        };
        let before_requested = if offer.requested.len() > 0 {
            space
        } else {
            empty
        };
        lemma_items_round_trip(offer.offered, empty, empty, behind_offered, INVALID_OFFER_ITEM@);
        lemma_items_round_trip(
            offer.requested,
            empty,
            before_requested,
            empty,
            INVALID_OFFER_ITEM@,
        );
        assert(empty + left0 + behind_offered =~= front0);
        assert(before_requested + right0 + empty =~= back0);
    }
}

/// The values of the fields of a message that holds no offer have no
/// whitespace around them.
proof fn lemma_wire_fields_trimmed(m: MessageView)
    requires
        encodable(m),
        !(m is TradeOffer),
        !(m is TradeConfirm),
    ensures
        trimmed_fields(wire_fields(m)) == wire_fields(m),
{
    lemma_commands_differ();
    lemma_peer_text_trimmed(sender(m));
    reveal_strlit("fnp://*");
    lemma_trim_of_trimmed(EVERYONE@);
    lemma_trim_of_trimmed(CMD_MESSAGE@);
    lemma_trim_of_trimmed(CMD_BROADCAST@);
    lemma_trim_of_trimmed(CMD_INVENTORY_SHOWCASE@);
    lemma_trim_of_trimmed(CMD_INVENTORY_INSPECTION@);
    lemma_trim_of_trimmed(CMD_ANNOUNCE_NAME@);
    lemma_trim_of_trimmed(CMD_PEER_LIST@);
    lemma_trim_of_trimmed(CMD_REJECT_CONNECTION@);
    match m {
        MessageView::Message { dest, content, .. } => {
            lemma_peer_text_trimmed(dest);
            assert(quoted(content)[0] == '"');
            assert(quoted(content).last() == '"');
            lemma_trim_of_trimmed(quoted(content));
        },
        MessageView::Broadcast { content, .. } => {
            assert(quoted(content)[0] == '"');
            assert(quoted(content).last() == '"');
            lemma_trim_of_trimmed(quoted(content));
        },
        MessageView::InventoryInspection { dest, .. } => {
            lemma_peer_text_trimmed(dest);
        },
        MessageView::InventoryShowcase { dest, inventory, .. } => {
            lemma_peer_text_trimmed(dest);
            lemma_escaped_texts_trimmed(inventory);
            lemma_join_trimmed(item_texts(escape_items(inventory)), INVENTORY_SEPARATOR@);
            lemma_trim_of_trimmed(inventory_text(escape_items(inventory)));
        },
        MessageView::AnnounceName { .. } => {},
        MessageView::PeerList { dest, peers, .. } => {
            lemma_peer_text_trimmed(dest);
            let texts = peer_texts(peers);
            assert forall|i: int| 0 <= i < texts.len() implies (#[trigger] texts[i]).len() > 0
                && is_trimmed(texts[i]) by {
                lemma_peer_text(peers[i]);
            }
            lemma_join_trimmed(texts, seq![',']);
            lemma_trim_of_trimmed(join(texts, seq![',']));
        },
        MessageView::RejectConnection { dest, .. } => {
            lemma_peer_text_trimmed(dest);
        },
        _ => {},
    }
    assert(trimmed_fields(wire_fields(m)) =~= wire_fields(m));
}

/// The answer to an offer is written without whitespace around it.
proof fn lemma_bool_text_trimmed(answer: bool)
    ensures
        trim(bool_text(answer)) == bool_text(answer),
{
    reveal_strlit("true");
    reveal_strlit("false");
    lemma_trim_of_trimmed(bool_text(answer));
}

/// The fields of an offer, as they are found in a line, read as the offer.
proof fn lemma_trade_offer_fields_trimmed(
    rem: PeerView,
    dest: PeerView,
    offer: OfferView,
    quoted: Option<Seq<char>>,
)
    requires
        !rem.username.contains('@'),
        !dest.username.contains('@'),
        clean_items(offer.offered),
        clean_items(offer.requested),
    ensures
        decode_fields(
            trimmed_fields(wire_fields(MessageView::TradeOffer { rem, dest, offer })),
            quoted,
        ) == Ok::<MessageView, Seq<char>>(MessageView::TradeOffer { rem, dest, offer }),
{
    lemma_keys_differ();
    lemma_commands_differ();
    lemma_peer_text_trimmed(rem);
    lemma_peer_text_trimmed(dest);
    lemma_trim_of_trimmed(CMD_TRADE_OFFER@);
    let a = (KEY_REM@, peer_text(rem));
    let b = (KEY_DEST@, peer_text(dest));
    let c = (KEY_CMD@, CMD_TRADE_OFFER@);
    let e = (KEY_OFFER@, trim(offer_text(escape_offer(offer))));
    let m = MessageView::TradeOffer { rem, dest, offer };
    assert(trimmed_fields(wire_fields(m)) =~= seq![a, b, c, e]);
    lemma_addressed_with(a.1, b.1, c.1, e.0, e.1);
    lemma_peer_round_trip(rem);
    lemma_peer_round_trip(dest);
    lemma_offer_field(offer);
}

/// The fields of the answer to an offer, as they are found in a line, read as the answer.
proof fn lemma_trade_confirm_fields_trimmed(
    rem: PeerView,
    dest: PeerView,
    response: bool,
    offer: OfferView,
    quoted: Option<Seq<char>>,
)
    requires
        !rem.username.contains('@'),
        !dest.username.contains('@'),
        clean_items(offer.offered),
        clean_items(offer.requested),
    ensures
        decode_fields(
            trimmed_fields(wire_fields(MessageView::TradeConfirm { rem, dest, response, offer })),
            quoted,
        ) == Ok::<MessageView, Seq<char>>(MessageView::TradeConfirm { rem, dest, response, offer }),
{
    lemma_keys_differ();
    lemma_commands_differ();
    lemma_true_false();
    lemma_peer_text_trimmed(rem);
    lemma_peer_text_trimmed(dest);
    lemma_trim_of_trimmed(CMD_TRADE_CONFIRM@);
    lemma_bool_text_trimmed(response);
    let a = (KEY_REM@, peer_text(rem));
    let b = (KEY_DEST@, peer_text(dest));
    let c = (KEY_CMD@, CMD_TRADE_CONFIRM@);
    let d = (KEY_RESPONSE@, bool_text(response));
    let e = (KEY_OFFER@, trim(offer_text(escape_offer(offer))));
    let m = MessageView::TradeConfirm { rem, dest, response, offer };
    assert(trimmed_fields(wire_fields(m)) =~= seq![a, b, c, d, e]);
    lemma_addressed_with(a.1, b.1, c.1, d.0, d.1);
    lemma_lookup5(a, b, c, d, e, KEY_REM@);
    lemma_lookup5(a, b, c, d, e, KEY_DEST@);
    lemma_lookup5(a, b, c, d, e, KEY_CMD@);
    lemma_lookup5(a, b, c, d, e, KEY_RESPONSE@);
    lemma_lookup5(a, b, c, d, e, KEY_OFFER@);
    lemma_peer_round_trip(rem);
    lemma_peer_round_trip(dest);
    lemma_offer_field(offer);
}

/// Reading the fields of a message as they are found in a line, each value
/// without the whitespace around it, gives the message back. For a message
/// with free text, what stands between the quotes of its field is the escaped
/// text that was written there.
pub proof fn lemma_scanned_fields_round_trip(m: MessageView, quoted: Option<Seq<char>>)
    requires
        encodable(m),
        m is Message || m is Broadcast ==> quoted == quoted_part(m),
    ensures
        decode_fields(trimmed_fields(wire_fields(m)), quoted) == Ok::<MessageView, Seq<char>>(m),
{
    match m {
        MessageView::TradeOffer { rem, dest, offer } => lemma_trade_offer_fields_trimmed(
            rem,
            dest,
            offer,
            quoted,
        ),
        MessageView::TradeConfirm { rem, dest, response, offer } => {
            lemma_trade_confirm_fields_trimmed(rem, dest, response, offer, quoted)
        },
        _ => {
            lemma_wire_fields_trimmed(m);
            lemma_fields_round_trip(m, quoted);
        },
    }
}

} // verus!
