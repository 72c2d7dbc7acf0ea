//! Reading a line of the protocol: the line is cut into fields by a regular
//! expression, and the fields are read as a message.
use crate::escape::{unescape, unescaped};
use crate::offer::{parse_inventory, parse_offer, Inventory, Offer, OfferView, ItemView};
use crate::pattern::{captures, captures_iter, regex_captures, regex_captures_iter};
use crate::peer::{parse_peer, Peer, PeerView};
use crate::protocol::{
    field_views, Field, MessageView, CMD_ANNOUNCE_NAME, CMD_BROADCAST, CMD_INVENTORY_INSPECTION,
    CMD_INVENTORY_SHOWCASE, CMD_MESSAGE, CMD_PEER_LIST, CMD_REJECT_CONNECTION, CMD_TRADE_CONFIRM,
    CMD_TRADE_OFFER, FALSE, FNP, INVALID_CONTENT, INVALID_RESPONSE, KEY_CMD, KEY_CONTENT,
    KEY_DEST, KEY_INVENTORY, KEY_OFFER, KEY_PEERS, KEY_REM, KEY_RESPONSE, NO_CMD, NO_CONTENT,
    NO_DEST, NO_INVENTORY, NO_OFFER, NO_PEERS, NO_REM, NO_RESPONSE, TRUE, UNKNOWN_CMD,
};
use crate::text::{
    chars_are, chars_of, lemma_views_push, push_range, result_view, split, split_chars, str_eq,
    string_of, trim, trimmed, views,
};
use vstd::prelude::*;

verus! {

/// The pattern of one field: a key of word characters, `:`, optional
/// whitespace, and a value that runs up to the first `;` that no `\` stands
/// before.
pub const FIELD_PATTERN: &'static str = r"(\w+):\s*([^;\\]*(?:\\.[^;\\]*)*)?;";

/// The pattern of free text: what stands between two double quotes.
pub const QUOTED_PATTERN: &'static str = r#""([^"]*)""#;

/// The text of group `i` of a match; empty where the group is missing or took no part.
pub open spec fn group(groups: Seq<Option<Seq<char>>>, i: int) -> Seq<char> {
    if 0 <= i < groups.len() {
        match groups[i] {
            Some(text) => text,
            None => Seq::empty(),
        }
    } else {
        Seq::empty()
    }
}

/// The fields that a list of matches of the field pattern stands for: the
/// first group is the key, the second, without the whitespace around it, the value.
pub open spec fn fields_of(matches: Seq<Seq<Option<Seq<char>>>>) -> Seq<Field> {
    Seq::new(matches.len(), |i: int| (group(matches[i], 1), trim(group(matches[i], 2))))
}

/// `s` with every line feed replaced by a space.
pub open spec fn flatten_lines(s: Seq<char>) -> Seq<char> {
    Seq::new(
        s.len(),
        |i: int|
            if s[i] == '\n' {
                ' '
            } else {
                s[i]
            },
    )
}

/// The fields of a line: what the field pattern finds in it, from left to right.
pub open spec fn scan_fields(line: Seq<char>) -> Seq<Field> {
    match regex_captures_iter(FIELD_PATTERN@, line) {
        Some(matches) => fields_of(matches),
        None => Seq::empty(),
    }
}

/// The free text of a value: what the pattern of quoted text captures in it, if anything.
pub open spec fn quoted_of(value: Seq<char>) -> Option<Seq<char>> {
    match regex_captures(QUOTED_PATTERN@, value) {
        Some(Some(groups)) => if groups.len() > 1 {
            groups[1]
        } else {
            None
        },
        _ => None,
    }
}

/// The value of the last field with the key `key`.
pub open spec fn lookup(fields: Seq<Field>, key: Seq<char>) -> Option<Seq<char>>
    decreases fields.len(),
{
    if fields.len() == 0 {
        None
    } else if fields.last().0 == key {
        Some(fields.last().1)
    } else {
        lookup(fields.drop_last(), key)
    }
}

/// The peer in the field `key`; `missing` where there is no such field.
pub open spec fn decode_peer(fields: Seq<Field>, key: Seq<char>, missing: Seq<char>) -> Result<
    PeerView,
    Seq<char>,
> {
    match lookup(fields, key) {
        None => Err(missing),
        Some(value) => parse_peer(value),
    }
}

/// The free text of a message, given what stood between the quotes of its field.
pub open spec fn decode_content(fields: Seq<Field>, quoted: Option<Seq<char>>) -> Result<
    Seq<char>,
    Seq<char>,
> {
    match lookup(fields, KEY_CONTENT@) {
        None => Err(NO_CONTENT@),
        Some(_) => match quoted {
            None => Err(INVALID_CONTENT@),
            Some(text) => Ok(unescape(text)),
        },
    }
}

/// The offer in the field `Offer`, unescaped.
pub open spec fn decode_offer(fields: Seq<Field>) -> Result<OfferView, Seq<char>> {
    match lookup(fields, KEY_OFFER@) {
        None => Err(NO_OFFER@),
        Some(value) => parse_offer(unescape(value)),
    }
}

/// The answer in the field `Response`: `true` or `false`.
pub open spec fn decode_response(fields: Seq<Field>) -> Result<bool, Seq<char>> {
    match lookup(fields, KEY_RESPONSE@) {
        None => Err(NO_RESPONSE@),
        Some(value) => if value == TRUE@ {
            Ok(true)
        } else if value == FALSE@ {
            Ok(false)
        } else {
            Err(INVALID_RESPONSE@)
        },
    }
}

/// The inventory in the field `Invetory`, unescaped.
pub open spec fn decode_inventory(fields: Seq<Field>) -> Result<Seq<ItemView>, Seq<char>> {
    match lookup(fields, KEY_INVENTORY@) {
        None => Err(NO_INVENTORY@),
        Some(value) => parse_inventory(unescape(value)),
    }
}

/// The peers that `pieces` write, each without the whitespace around it; the
/// error of the first piece that is no peer.
pub open spec fn parse_peers(pieces: Seq<Seq<char>>) -> Result<Seq<PeerView>, Seq<char>>
    decreases pieces.len(),
{
    if pieces.len() == 0 {
        Ok(Seq::empty())
    } else {
        match parse_peers(pieces.drop_last()) {
            Err(e) => Err(e),
            Ok(peers) => match parse_peer(trim(pieces.last())) {
                Ok(peer) => Ok(peers.push(peer)),
                Err(e) => Err(e),
            },
        }
    }
}

/// The peers in the field `Peers`, separated by commas.
pub open spec fn decode_peers(fields: Seq<Field>) -> Result<Seq<PeerView>, Seq<char>> {
    match lookup(fields, KEY_PEERS@) {
        None => Err(NO_PEERS@),
        Some(value) => parse_peers(split(value, ',')),
    }
}

/// A message for one peer: the destination, then the text.
pub open spec fn decode_message(
    rem: PeerView,
    fields: Seq<Field>,
    quoted: Option<Seq<char>>,
) -> Result<MessageView, Seq<char>> {
    match decode_peer(fields, KEY_DEST@, NO_DEST@) {
        Err(e) => Err(e),
        Ok(dest) => match decode_content(fields, quoted) {
            Err(e) => Err(e),
            Ok(content) => Ok(MessageView::Message { rem, dest, content }),
        },
    }
}

/// A message for everybody: the text.
pub open spec fn decode_broadcast(
    rem: PeerView,
    fields: Seq<Field>,
    quoted: Option<Seq<char>>,
) -> Result<MessageView, Seq<char>> {
    match decode_content(fields, quoted) {
        Err(e) => Err(e),
        Ok(content) => Ok(MessageView::Broadcast { rem, content }),
    }
}

/// An offer: the destination, then the offer.
pub open spec fn decode_trade_offer(rem: PeerView, fields: Seq<Field>) -> Result<
    MessageView,
    Seq<char>,
> {
    match decode_peer(fields, KEY_DEST@, NO_DEST@) {
        Err(e) => Err(e),
        Ok(dest) => match decode_offer(fields) {
            Err(e) => Err(e),
            Ok(offer) => Ok(MessageView::TradeOffer { rem, dest, offer }),
        },
    }
}

/// The answer to an offer: the destination, then the answer, then the offer.
pub open spec fn decode_trade_confirm(rem: PeerView, fields: Seq<Field>) -> Result<
    MessageView,
    Seq<char>,
> {
    match decode_peer(fields, KEY_DEST@, NO_DEST@) {
        Err(e) => Err(e),
        Ok(dest) => match decode_response(fields) {
            Err(e) => Err(e),
            Ok(response) => match decode_offer(fields) {
                Err(e) => Err(e),
                Ok(offer) => Ok(MessageView::TradeConfirm { rem, dest, response, offer }),
            },
        },
    }
}

/// An inventory that is shown: the destination, then the inventory.
pub open spec fn decode_inventory_showcase(rem: PeerView, fields: Seq<Field>) -> Result<
    MessageView,
    Seq<char>,
> {
    match decode_peer(fields, KEY_DEST@, NO_DEST@) {
        Err(e) => Err(e),
        Ok(dest) => match decode_inventory(fields) {
            Err(e) => Err(e),
            Ok(inventory) => Ok(MessageView::InventoryShowcase { rem, dest, inventory }),
        },
    }
}

/// A request to see an inventory: the destination.
pub open spec fn decode_inventory_inspection(rem: PeerView, fields: Seq<Field>) -> Result<
    MessageView,
    Seq<char>,
> {
    match decode_peer(fields, KEY_DEST@, NO_DEST@) {
        Err(e) => Err(e),
        Ok(dest) => Ok(MessageView::InventoryInspection { rem, dest }),
    }
}

/// A list of peers: the peers, then the destination.
pub open spec fn decode_peer_list(rem: PeerView, fields: Seq<Field>) -> Result<
    MessageView,
    Seq<char>,
> {
    match decode_peers(fields) {
        Err(e) => Err(e),
        Ok(peers) => match decode_peer(fields, KEY_DEST@, NO_DEST@) {
            Err(e) => Err(e),
            Ok(dest) => Ok(MessageView::PeerList { rem, dest, peers }),
        },
    }
}

/// The refusal of a handshake: the destination.
pub open spec fn decode_reject_connection(rem: PeerView, fields: Seq<Field>) -> Result<
    MessageView,
    Seq<char>,
> {
    match decode_peer(fields, KEY_DEST@, NO_DEST@) {
        Err(e) => Err(e),
        Ok(dest) => Ok(MessageView::RejectConnection { rem, dest }),
    }
}

/// The message with the command `cmd` and the sender `rem` that `fields` stand for.
pub open spec fn decode_command(
    cmd: Seq<char>,
    rem: PeerView,
    fields: Seq<Field>,
    quoted: Option<Seq<char>>,
) -> Result<MessageView, Seq<char>> {
    if cmd == CMD_MESSAGE@ {
        decode_message(rem, fields, quoted)
    } else if cmd == CMD_BROADCAST@ {
        decode_broadcast(rem, fields, quoted)
    } else if cmd == CMD_TRADE_OFFER@ {
        decode_trade_offer(rem, fields)
    } else if cmd == CMD_TRADE_CONFIRM@ {
        decode_trade_confirm(rem, fields)
    } else if cmd == CMD_INVENTORY_SHOWCASE@ {
        decode_inventory_showcase(rem, fields)
    } else if cmd == CMD_INVENTORY_INSPECTION@ {
        decode_inventory_inspection(rem, fields)
    } else if cmd == CMD_ANNOUNCE_NAME@ {
        Ok(MessageView::AnnounceName { rem })
    } else if cmd == CMD_PEER_LIST@ {
        decode_peer_list(rem, fields)
    } else if cmd == CMD_REJECT_CONNECTION@ {
        decode_reject_connection(rem, fields)
    } else {
        Err(UNKNOWN_CMD@ + cmd)
    }
}

/// The message that `fields` stand for, where `quoted` is what stood between
/// the quotes of the field `Content`. The sender and the command are read
/// first, then what the command asks for, in the order of the error texts: the
/// first thing that is missing or malformed is the error.
pub open spec fn decode_fields(fields: Seq<Field>, quoted: Option<Seq<char>>) -> Result<
    MessageView,
    Seq<char>,
> {
    match decode_peer(fields, KEY_REM@, NO_REM@) {
        Err(e) => Err(e),
        Ok(rem) => match lookup(fields, KEY_CMD@) {
            None => Err(NO_CMD@),
            Some(cmd) => decode_command(trim(cmd), rem, fields, quoted),
        },
    }
}

/// The message that the line `input` stands for.
pub open spec fn parse_line(input: Seq<char>) -> Result<MessageView, Seq<char>> {
    let fields = scan_fields(flatten_lines(input));
    decode_fields(
        fields,
        match lookup(fields, KEY_CONTENT@) {
            Some(value) => quoted_of(value),
            None => None,
        },
    )
}

/// An error among the first pieces is the error of the whole.
pub proof fn lemma_parse_peers_error(pieces: Seq<Seq<char>>, k: int)
    requires
        0 <= k <= pieces.len(),
        parse_peers(pieces.take(k)) is Err,
    ensures
        parse_peers(pieces) == parse_peers(pieces.take(k)),
    decreases pieces.len() - k,
{
    if k < pieces.len() {
        assert(pieces.take(k + 1).drop_last() == pieces.take(k));
        lemma_parse_peers_error(pieces, k + 1);
    } else {
        assert(pieces.take(k) == pieces);
    }
}

/// The value of the last field with the key `key`.
pub fn find_field<'a>(fields: &'a Vec<(String, String)>, key: &str) -> (r: Option<&'a String>)
    ensures
        r.deep_view() == lookup(field_views(fields@), key@),
{
    let ghost all = field_views(fields@);
    let mut i: usize = fields.len();
    assert(all.take(i as int) == all);
    while i > 0
        invariant
            i <= fields.len(),
            all == field_views(fields@),
            lookup(all, key@) == lookup(all.take(i as int), key@),
        decreases i,
    {
        assert(all.take(i as int).last() == all[i - 1]);
        if str_eq(fields[i - 1].0.as_str(), key) {
            return Some(&fields[i - 1].1);
        }
        assert(all.take(i as int).drop_last() == all.take(i - 1));
        i -= 1;
    }
    None
}

fn read_peer(fields: &Vec<(String, String)>, key: &str, missing: &str) -> (r: Result<
    Peer,
    String,
>)
    ensures
        result_view(r) == decode_peer(field_views(fields@), key@, missing@),
{
    match find_field(fields, key) {
        None => Err(missing.to_owned()),
        Some(value) => Peer::parse(value.as_str()),
    }
}

fn read_content(fields: &Vec<(String, String)>, quoted: &Option<String>) -> (r: Result<
    String,
    String,
>)
    ensures
        result_view(r) == decode_content(field_views(fields@), quoted.deep_view()),
{
    match find_field(fields, KEY_CONTENT) {
        None => Err(NO_CONTENT.to_owned()),
        Some(_) => match quoted {
            None => Err(INVALID_CONTENT.to_owned()),
            Some(text) => {
                let v = chars_of(text.as_str());
                Ok(string_of(&unescaped(&v)))
            },
        },
    }
}

fn read_offer(fields: &Vec<(String, String)>) -> (r: Result<Offer, String>)
    ensures
        result_view(r) == decode_offer(field_views(fields@)),
{
    match find_field(fields, KEY_OFFER) {
        None => Err(NO_OFFER.to_owned()),
        Some(value) => {
            let v = chars_of(value.as_str());
            Offer::parse_chars(&unescaped(&v))
        },
    }
}

fn read_response(fields: &Vec<(String, String)>) -> (r: Result<bool, String>)
    ensures
        (match decode_response(field_views(fields@)) {
            Ok(b) => r == Ok::<bool, String>(b),
            Err(e) => r is Err && r->Err_0@ == e,
        }),
{
    match find_field(fields, KEY_RESPONSE) {
        None => Err(NO_RESPONSE.to_owned()),
        Some(value) => {
            if str_eq(value.as_str(), TRUE) {
                Ok(true)
            } else if str_eq(value.as_str(), FALSE) {
                Ok(false)
            } else {
                Err(INVALID_RESPONSE.to_owned())
            }
        },
    }
}

fn read_inventory(fields: &Vec<(String, String)>) -> (r: Result<Inventory, String>)
    ensures
        result_view(r) == decode_inventory(field_views(fields@)),
{
    match find_field(fields, KEY_INVENTORY) {
        None => Err(NO_INVENTORY.to_owned()),
        Some(value) => {
            let v = chars_of(value.as_str());
            Inventory::parse_chars(&unescaped(&v))
        },
    }
}

fn read_peers(fields: &Vec<(String, String)>) -> (r: Result<Vec<Peer>, String>)
    ensures
        (match decode_peers(field_views(fields@)) {
            Ok(peers) => r is Ok && views(r->Ok_0@) == peers,
            Err(e) => r is Err && r->Err_0@ == e,
        }),
{
    let value = match find_field(fields, KEY_PEERS) {
        None => {
            return Err(NO_PEERS.to_owned());
        },
        Some(value) => chars_of(value.as_str()),
    };
    let pieces = split_chars(&value, ',');
    let ghost all = split(value@, ',');
    let mut out: Vec<Peer> = Vec::new();
    let mut i: usize = 0;
    assert(all.take(0) == Seq::<Seq<char>>::empty());
    assert(views(out@) == Seq::<PeerView>::empty());
    while i < pieces.len()
        invariant
            i <= pieces.len(),
            all == views(pieces@),
            parse_peers(all.take(i as int)) == Ok::<Seq<PeerView>, Seq<char>>(views(out@)),
            decode_peers(field_views(fields@)) == parse_peers(all),
        decreases pieces.len() - i,
    {
        assert(all.take(i + 1).drop_last() == all.take(i as int));
        assert(all.take(i + 1).last() == pieces@[i as int]@);
        let piece = trimmed(&pieces[i]);
        match Peer::parse_chars(&piece) {
            Ok(peer) => {
                proof {
                    lemma_views_push(out@, peer);
                }
                out.push(peer);
            },
            Err(e) => {
                proof {
                    lemma_parse_peers_error(all, i + 1);
                }
                return Err(e);
            },
        }
        i += 1;
    }
    assert(all.take(pieces.len() as int) == all);
    Ok(out)
}

fn read_message(rem: Peer, fields: &Vec<(String, String)>, quoted: &Option<String>) -> (r: Result<
    FNP,
    String,
>)
    ensures
        result_view(r) == decode_message(rem@, field_views(fields@), quoted.deep_view()),
{
    let dest = match read_peer(fields, KEY_DEST, NO_DEST) {
        Ok(p) => p,
        Err(e) => {
            return Err(e);
        },
    };
    match read_content(fields, quoted) {
        Ok(content) => Ok(FNP::Message { rem, dest, content }),
        Err(e) => Err(e),
    }
}

fn read_broadcast(rem: Peer, fields: &Vec<(String, String)>, quoted: &Option<String>) -> (r:
    Result<FNP, String>)
    ensures
        result_view(r) == decode_broadcast(rem@, field_views(fields@), quoted.deep_view()),
{
    match read_content(fields, quoted) {
        Ok(content) => Ok(FNP::Broadcast { rem, content }),
        Err(e) => Err(e),
    }
}

fn read_trade_offer(rem: Peer, fields: &Vec<(String, String)>) -> (r: Result<FNP, String>)
    ensures
        result_view(r) == decode_trade_offer(rem@, field_views(fields@)),
{
    let dest = match read_peer(fields, KEY_DEST, NO_DEST) {
        Ok(p) => p,
        Err(e) => {
            return Err(e);
        },
    };
    match read_offer(fields) {
        Ok(offer) => Ok(FNP::TradeOffer { rem, dest, offer }),
        Err(e) => Err(e),
    }
}

fn read_trade_confirm(rem: Peer, fields: &Vec<(String, String)>) -> (r: Result<FNP, String>)
    ensures
        result_view(r) == decode_trade_confirm(rem@, field_views(fields@)),
{
    let dest = match read_peer(fields, KEY_DEST, NO_DEST) {
        Ok(p) => p,
        Err(e) => {
            return Err(e);
        },
    };
    let response = match read_response(fields) {
        Ok(b) => b,
        Err(e) => {
            return Err(e);
        },
    };
    match read_offer(fields) {
        Ok(offer) => Ok(FNP::TradeConfirm { rem, dest, response, offer }),
        Err(e) => Err(e),
    }
}

fn read_inventory_showcase(rem: Peer, fields: &Vec<(String, String)>) -> (r: Result<FNP, String>)
    ensures
        result_view(r) == decode_inventory_showcase(rem@, field_views(fields@)),
{
    let dest = match read_peer(fields, KEY_DEST, NO_DEST) {
        Ok(p) => p,
        Err(e) => {
            return Err(e);
        },
    };
    match read_inventory(fields) {
        Ok(inventory) => Ok(FNP::InventoryShowcase { rem, dest, inventory }),
        Err(e) => Err(e),
    }
}

fn read_inventory_inspection(rem: Peer, fields: &Vec<(String, String)>) -> (r: Result<
    FNP,
    String,
>)
    ensures
        result_view(r) == decode_inventory_inspection(rem@, field_views(fields@)),
{
    match read_peer(fields, KEY_DEST, NO_DEST) {
        Ok(dest) => Ok(FNP::InventoryInspection { rem, dest }),
        Err(e) => Err(e),
    }
}

fn read_peer_list(rem: Peer, fields: &Vec<(String, String)>) -> (r: Result<FNP, String>)
    ensures
        result_view(r) == decode_peer_list(rem@, field_views(fields@)),
{
    let peers = match read_peers(fields) {
        Ok(p) => p,
        Err(e) => {
            return Err(e);
        },
    };
    match read_peer(fields, KEY_DEST, NO_DEST) {
        Ok(dest) => Ok(FNP::PeerList { rem, dest, peers }),
        Err(e) => Err(e),
    }
}

fn read_reject_connection(rem: Peer, fields: &Vec<(String, String)>) -> (r: Result<FNP, String>)
    ensures
        result_view(r) == decode_reject_connection(rem@, field_views(fields@)),
{
    match read_peer(fields, KEY_DEST, NO_DEST) {
        Ok(dest) => Ok(FNP::RejectConnection { rem, dest }),
        Err(e) => Err(e),
    }
}

fn read_command(
    cmd: &Vec<char>,
    rem: Peer,
    fields: &Vec<(String, String)>,
    quoted: &Option<String>,
) -> (r: Result<FNP, String>)
    ensures
        result_view(r) == decode_command(cmd@, rem@, field_views(fields@), quoted.deep_view()),
{
    if chars_are(cmd, CMD_MESSAGE) {
        read_message(rem, fields, quoted)
    } else if chars_are(cmd, CMD_BROADCAST) {
        read_broadcast(rem, fields, quoted)
    } else if chars_are(cmd, CMD_TRADE_OFFER) {
        read_trade_offer(rem, fields)
    } else if chars_are(cmd, CMD_TRADE_CONFIRM) {
        read_trade_confirm(rem, fields)
    } else if chars_are(cmd, CMD_INVENTORY_SHOWCASE) {
        read_inventory_showcase(rem, fields)
    } else if chars_are(cmd, CMD_INVENTORY_INSPECTION) {
        read_inventory_inspection(rem, fields)
    } else if chars_are(cmd, CMD_ANNOUNCE_NAME) {
        Ok(FNP::AnnounceName { rem })
    } else if chars_are(cmd, CMD_PEER_LIST) {
        read_peer_list(rem, fields)
    } else if chars_are(cmd, CMD_REJECT_CONNECTION) {
        read_reject_connection(rem, fields)
    } else {
        let mut e = UNKNOWN_CMD.to_owned();
        push_range(&mut e, cmd, 0, cmd.len());
        assert(cmd@.subrange(0, cmd.len() as int) == cmd@);
        Err(e)
    }
}

fn group_text(groups: &Vec<Option<String>>, i: usize) -> (out: Vec<char>)
    ensures
        out@ == group(groups.deep_view(), i as int),
{
    if i < groups.len() {
        assert(groups.deep_view()[i as int] == groups@[i as int].deep_view());
        match &groups[i] {
            Some(text) => chars_of(text.as_str()),
            None => Vec::new(),
        }
    } else {
        Vec::new()
    }
}

/// The fields that a list of matches of the field pattern stands for.
fn fields_from(matches: &Vec<Vec<Option<String>>>) -> (out: Vec<(String, String)>)
    ensures
        field_views(out@) == fields_of(matches.deep_view()),
{
    let mut out: Vec<(String, String)> = Vec::new();
    let mut i: usize = 0;
    while i < matches.len()
        invariant
            i <= matches.len(),
            field_views(out@) == fields_of(matches.deep_view()).take(i as int),
        decreases matches.len() - i,
    {
        assert(matches.deep_view()[i as int] == matches@[i as int].deep_view());
        let key = group_text(&matches[i], 1);
        let value = trimmed(&group_text(&matches[i], 2));
        let ghost before = field_views(out@);
        let ghost all = fields_of(matches.deep_view());
        assert(all[i as int] == (key@, value@));
        out.push((string_of(&key), string_of(&value)));
        assert(field_views(out@) =~= before.push((key@, value@)));
        i += 1;
        assert(all.take(i as int) =~= all.take(i - 1).push(all[i - 1]));
    }
    assert(fields_of(matches.deep_view()).take(matches.len() as int) == fields_of(
        matches.deep_view(),
    ));
    out
}

fn flattened(input: &str) -> (out: String)
    ensures
        out@ == flatten_lines(input@),
{
    let v = chars_of(input);
    let mut out = String::new();
    let mut i: usize = 0;
    while i < v.len()
        invariant
            i <= v.len(),
            v@ == input@,
            out@ == flatten_lines(input@).take(i as int),
        decreases v.len() - i,
    {
        if v[i] == '\n' {
            out.push(' ');
        } else {
            out.push(v[i]);
        }
        i += 1;
        assert(out@ =~= flatten_lines(input@).take(i as int));
    }
    assert(flatten_lines(input@).take(v.len() as int) == flatten_lines(input@));
    out
}

/// The fields of a line.
fn scan(line: &str) -> (out: Vec<(String, String)>)
    ensures
        field_views(out@) == scan_fields(line@),
{
    match captures_iter(FIELD_PATTERN, line) {
        Some(matches) => fields_from(&matches),
        None => {
            let out: Vec<(String, String)> = Vec::new();
            assert(field_views(out@) =~= Seq::<Field>::empty());
            out
        },
    }
}

/// What stands between the first pair of double quotes of `value`, if anything.
fn extract_quoted_content(value: &str) -> (out: Option<String>)
    ensures
        out.deep_view() == quoted_of(value@),
{
    match captures(QUOTED_PATTERN, value) {
        Some(Some(groups)) => {
            if groups.len() > 1 {
                assert(groups.deep_view()[1] == groups@[1].deep_view());
                match &groups[1] {
                    Some(text) => Some(text.clone()),
                    None => None,
                }
            } else {
                None
            }
        },
        _ => None,
    }
}

/// The reader of the protocol.
#[derive(Debug)]
pub struct FNPParser;

impl FNPParser {
    /// Reads the message that `fields` stand for, where `quoted` is what
    /// stood between the quotes of the field `Content`.
    pub fn decode(fields: &Vec<(String, String)>, quoted: Option<String>) -> (r: Result<
        FNP,
        String,
    >)
        ensures
            result_view(r) == decode_fields(field_views(fields@), quoted.deep_view()),
    {
        let rem = match read_peer(fields, KEY_REM, NO_REM) {
            Ok(p) => p,
            Err(e) => {
                return Err(e);
            },
        };
        match find_field(fields, KEY_CMD) {
            None => Err(NO_CMD.to_owned()),
            Some(value) => {
                let cmd = trimmed(&chars_of(value.as_str()));
                read_command(&cmd, rem, fields, &quoted)
            },
        }
    }

    /// Reads one line of the protocol. Line feeds inside it count as spaces.
    pub fn parse(input: &str) -> (r: Result<FNP, String>)
        ensures
            result_view(r) == parse_line(input@),
    {
        let line = flattened(input);
        let fields = scan(line.as_str());
        let quoted = match find_field(&fields, KEY_CONTENT) {
            Some(value) => extract_quoted_content(value.as_str()),
            None => None,
        };
        FNPParser::decode(&fields, quoted)
    }
}

} // verus!
