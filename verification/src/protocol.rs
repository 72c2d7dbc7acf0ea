//! The Fish Net Protocol: one message is one line of text,
//!
//! ```text
//! FNP 1.0; REM: fnp://alice@127.0.0.1:6000; DEST: fnp://bob@127.0.0.1:6001; CMD: Message; Content: "hi";
//! ```
//!
//! made of fields `Key: value;`. This module holds the messages, the fields
//! that each is written with, and the message that a list of fields stands for.
use crate::escape::{escape, push_escaped};
use crate::offer::{
    escape_items, escape_offer, inventory_text, offer_text, Inventory, ItemView, Offer, OfferView,
};
use crate::peer::{clone_peers, peer_text, Peer, PeerView};
use crate::text::{chars_of, join, views};
use vstd::prelude::*;
use vstd::string::StringExecFns;

verus! {

/// What every line begins with when it is written.
pub const PREAMBLE: &'static str = "FNP 1.0;";

/// The key of the sender.
pub const KEY_REM: &'static str = "REM";

/// The key of the destination.
pub const KEY_DEST: &'static str = "DEST";

/// The key of the command.
pub const KEY_CMD: &'static str = "CMD";

/// The key of the free text.
pub const KEY_CONTENT: &'static str = "Content";

/// The key of the offer.
pub const KEY_OFFER: &'static str = "Offer";

/// The key of the answer to an offer.
pub const KEY_RESPONSE: &'static str = "Response";

/// The key of the inventory.
pub const KEY_INVENTORY: &'static str = "Invetory";

/// The key of the list of peers.
pub const KEY_PEERS: &'static str = "Peers";

/// The command of a message for one peer.
pub const CMD_MESSAGE: &'static str = "Message";

/// The command of a message for everybody.
pub const CMD_BROADCAST: &'static str = "Broadcast";

/// The command of an offer.
pub const CMD_TRADE_OFFER: &'static str = "TradeOffer";

/// The command of the answer to an offer.
pub const CMD_TRADE_CONFIRM: &'static str = "TradeConfirm";

/// The command of a request to see an inventory.
pub const CMD_INVENTORY_INSPECTION: &'static str = "InventoryInspection";

/// The command of an inventory that is shown.
pub const CMD_INVENTORY_SHOWCASE: &'static str = "InvetoryShowcase";

/// The command of the handshake.
pub const CMD_ANNOUNCE_NAME: &'static str = "AnnounceName";

/// The command of a list of peers.
pub const CMD_PEER_LIST: &'static str = "PeerList";

/// The command of the refusal of a handshake.
pub const CMD_REJECT_CONNECTION: &'static str = "RejectConnection";

/// The destination that a broadcast is written with.
pub const EVERYONE: &'static str = "fnp://*";

/// The answer yes.
pub const TRUE: &'static str = "true";

/// The answer no.
pub const FALSE: &'static str = "false";

/// The error of a line without a sender.
pub const NO_REM: &'static str = "No REM";

/// The error of a line without a command.
pub const NO_CMD: &'static str = "No CMD";

/// The error of a line without the destination that its command asks for.
pub const NO_DEST: &'static str = "No DEST";

/// The error of a line without the text that its command asks for.
pub const NO_CONTENT: &'static str = "No Content";

/// The error of a line without the offer that its command asks for.
pub const NO_OFFER: &'static str = "No Offer";

/// The error of a line without the answer that its command asks for.
pub const NO_RESPONSE: &'static str = "No CONFIRM";

/// The error of a line without the inventory that its command asks for.
pub const NO_INVENTORY: &'static str = "No Invetory";

/// The error of a line without the list of peers that its command asks for.
pub const NO_PEERS: &'static str = "No Peers";

/// The error of a text that does not stand between double quotes.
pub const INVALID_CONTENT: &'static str = "Invalid content format";

/// The error of an answer that is neither `true` nor `false`.
pub const INVALID_RESPONSE: &'static str = "provided string was not `true` or `false`";

/// What the error of an unknown command begins with; the command follows.
pub const UNKNOWN_CMD: &'static str = "Unknown CMD: ";

/// A message of the protocol.
#[derive(Debug, PartialEq)]
pub enum FNP {
    /// Text for one peer.
    Message { rem: Peer, dest: Peer, content: String },
    /// Text for every peer.
    Broadcast { rem: Peer, content: String },
    /// A trade that `rem` proposes to `dest`.
    TradeOffer { rem: Peer, dest: Peer, offer: Offer },
    /// The answer of `rem` to the offer that `dest` made.
    TradeConfirm { rem: Peer, dest: Peer, response: bool, offer: Offer },
    /// A request to see the inventory of `dest`.
    InventoryInspection { rem: Peer, dest: Peer },
    /// The inventory of `rem`, shown to `dest`.
    InventoryShowcase { rem: Peer, dest: Peer, inventory: Inventory },
    /// The handshake: `rem` tells who it is on a connection just opened.
    AnnounceName { rem: Peer },
    /// The peers that `rem` knows, told to `dest`.
    PeerList { rem: Peer, dest: Peer, peers: Vec<Peer> },
    /// The refusal of a handshake: the username of `dest` is taken.
    RejectConnection { rem: Peer, dest: Peer },
}

/// A message as the contracts speak of it.
pub enum MessageView {
    Message { rem: PeerView, dest: PeerView, content: Seq<char> },
    Broadcast { rem: PeerView, content: Seq<char> },
    TradeOffer { rem: PeerView, dest: PeerView, offer: OfferView },
    TradeConfirm { rem: PeerView, dest: PeerView, response: bool, offer: OfferView },
    InventoryInspection { rem: PeerView, dest: PeerView },
    InventoryShowcase { rem: PeerView, dest: PeerView, inventory: Seq<ItemView> },
    AnnounceName { rem: PeerView },
    PeerList { rem: PeerView, dest: PeerView, peers: Seq<PeerView> },
    RejectConnection { rem: PeerView, dest: PeerView },
}

impl View for FNP {
    type V = MessageView;

    open spec fn view(&self) -> MessageView {
        match self {
            FNP::Message { rem, dest, content } => MessageView::Message {
                rem: rem@,
                dest: dest@,
                content: content@,
            },
            FNP::Broadcast { rem, content } => MessageView::Broadcast {
                rem: rem@,
                content: content@,
            },
            FNP::TradeOffer { rem, dest, offer } => MessageView::TradeOffer {
                rem: rem@,
                dest: dest@,
                offer: offer@,
            },
            FNP::TradeConfirm { rem, dest, response, offer } => MessageView::TradeConfirm {
                rem: rem@,
                dest: dest@,
                response: *response,
                offer: offer@,
            },
            FNP::InventoryInspection { rem, dest } => MessageView::InventoryInspection {
                rem: rem@,
                dest: dest@,
            },
            FNP::InventoryShowcase { rem, dest, inventory } => MessageView::InventoryShowcase {
                rem: rem@,
                dest: dest@,
                inventory: inventory@,
            },
            FNP::AnnounceName { rem } => MessageView::AnnounceName { rem: rem@ },
            FNP::PeerList { rem, dest, peers } => MessageView::PeerList {
                rem: rem@,
                dest: dest@,
                peers: views(peers@),
            },
            FNP::RejectConnection { rem, dest } => MessageView::RejectConnection {
                rem: rem@,
                dest: dest@,
            },
        }
    }
}

/// The peer that sent `m`.
pub open spec fn sender(m: MessageView) -> PeerView {
    match m {
        MessageView::Message { rem, .. } => rem,
        MessageView::Broadcast { rem, .. } => rem,
        MessageView::TradeOffer { rem, .. } => rem,
        MessageView::TradeConfirm { rem, .. } => rem,
        MessageView::InventoryInspection { rem, .. } => rem,
        MessageView::InventoryShowcase { rem, .. } => rem,
        MessageView::AnnounceName { rem } => rem,
        MessageView::PeerList { rem, .. } => rem,
        MessageView::RejectConnection { rem, .. } => rem,
    }
}

/// The peer that `m` is for; none for a broadcast and for a handshake.
pub open spec fn destination(m: MessageView) -> Option<PeerView> {
    match m {
        MessageView::Message { dest, .. } => Some(dest),
        MessageView::Broadcast { .. } => None,
        MessageView::TradeOffer { dest, .. } => Some(dest),
        MessageView::TradeConfirm { dest, .. } => Some(dest),
        MessageView::InventoryInspection { dest, .. } => Some(dest),
        MessageView::InventoryShowcase { dest, .. } => Some(dest),
        MessageView::AnnounceName { .. } => None,
        MessageView::PeerList { dest, .. } => Some(dest),
        MessageView::RejectConnection { dest, .. } => Some(dest),
    }
}

/// `m` with `rem` as its sender and nothing else changed.
pub open spec fn with_sender(m: MessageView, rem: PeerView) -> MessageView {
    match m {
        MessageView::Message { dest, content, .. } => MessageView::Message { rem, dest, content },
        MessageView::Broadcast { content, .. } => MessageView::Broadcast { rem, content },
        MessageView::TradeOffer { dest, offer, .. } => MessageView::TradeOffer { rem, dest, offer },
        MessageView::TradeConfirm { dest, response, offer, .. } => MessageView::TradeConfirm {
            rem,
            dest,
            response,
            offer,
        },
        MessageView::InventoryInspection { dest, .. } => MessageView::InventoryInspection {
            rem,
            dest,
        },
        MessageView::InventoryShowcase { dest, inventory, .. } => MessageView::InventoryShowcase {
            rem,
            dest,
            inventory,
        },
        MessageView::AnnounceName { .. } => MessageView::AnnounceName { rem },
        MessageView::PeerList { dest, peers, .. } => MessageView::PeerList { rem, dest, peers },
        MessageView::RejectConnection { dest, .. } => MessageView::RejectConnection { rem, dest },
    }
}

/// A field of a line: its key and its value.
pub type Field = (Seq<char>, Seq<char>);

/// The fields `fields` as the contracts speak of them.
pub open spec fn field_views(fields: Seq<(String, String)>) -> Seq<Field> {
    Seq::new(fields.len(), |i: int| (fields[i].0@, fields[i].1@))
}

/// The text forms of `peers`, in order.
pub open spec fn peer_texts(peers: Seq<PeerView>) -> Seq<Seq<char>> {
    Seq::new(peers.len(), |i: int| peer_text(peers[i]))
}

/// Free text as a field holds it: escaped, between double quotes.
pub open spec fn quoted(content: Seq<char>) -> Seq<char> {
    seq!['"'] + escape(content) + seq!['"']
}

/// An answer as a field holds it: `true` or `false`.
pub open spec fn bool_text(b: bool) -> Seq<char> {
    if b {
        TRUE@
    } else {
        FALSE@
    }
}

/// The fields that `m` is written with, in the order in which they are written.
pub open spec fn wire_fields(m: MessageView) -> Seq<Field> {
    match m {
        MessageView::Message { rem, dest, content } => seq![
            (KEY_REM@, peer_text(rem)),
            (KEY_DEST@, peer_text(dest)),
            (KEY_CMD@, CMD_MESSAGE@),
            (KEY_CONTENT@, quoted(content)),
        ],
        MessageView::Broadcast { rem, content } => seq![
            (KEY_REM@, peer_text(rem)),
            (KEY_DEST@, EVERYONE@),
            (KEY_CMD@, CMD_BROADCAST@),
            (KEY_CONTENT@, quoted(content)),
        ],
        MessageView::TradeOffer { rem, dest, offer } => seq![
            (KEY_REM@, peer_text(rem)),
            (KEY_DEST@, peer_text(dest)),
            (KEY_CMD@, CMD_TRADE_OFFER@),
            (KEY_OFFER@, offer_text(escape_offer(offer))),
        ],
        MessageView::TradeConfirm { rem, dest, response, offer } => seq![
            (KEY_REM@, peer_text(rem)),
            (KEY_DEST@, peer_text(dest)),
            (KEY_CMD@, CMD_TRADE_CONFIRM@),
            (KEY_RESPONSE@, bool_text(response)),
            (KEY_OFFER@, offer_text(escape_offer(offer))),
        ],
        MessageView::InventoryInspection { rem, dest } => seq![
            (KEY_REM@, peer_text(rem)),
            (KEY_DEST@, peer_text(dest)),
            (KEY_CMD@, CMD_INVENTORY_INSPECTION@),
        ],
        MessageView::InventoryShowcase { rem, dest, inventory } => seq![
            (KEY_REM@, peer_text(rem)),
            (KEY_DEST@, peer_text(dest)),
            (KEY_CMD@, CMD_INVENTORY_SHOWCASE@),
            (KEY_INVENTORY@, inventory_text(escape_items(inventory))),
        ],
        MessageView::AnnounceName { rem } => seq![
            (KEY_REM@, peer_text(rem)),
            (KEY_CMD@, CMD_ANNOUNCE_NAME@),
        ],
        MessageView::PeerList { rem, dest, peers } => seq![
            (KEY_REM@, peer_text(rem)),
            (KEY_DEST@, peer_text(dest)),
            (KEY_CMD@, CMD_PEER_LIST@),
            (KEY_PEERS@, join(peer_texts(peers), seq![','])),
        ],
        MessageView::RejectConnection { rem, dest } => seq![
            (KEY_REM@, peer_text(rem)),
            (KEY_DEST@, peer_text(dest)),
            (KEY_CMD@, CMD_REJECT_CONNECTION@),
        ],
    }
}

/// A field as it is written: a space, the key, `: `, the value and `;`.
pub open spec fn field_text(field: Field) -> Seq<char> {
    seq![' '] + field.0 + seq![':', ' '] + field.1 + seq![';']
}

/// The fields `fields` as they are written, one after the other.
pub open spec fn fields_text(fields: Seq<Field>) -> Seq<char>
    decreases fields.len(),
{
    if fields.len() == 0 {
        Seq::empty()
    } else {
        fields_text(fields.drop_last()) + field_text(fields.last())
    }
}

/// The line that `m` is written as: the preamble and then its fields.
pub open spec fn encode(m: MessageView) -> Seq<char> {
    PREAMBLE@ + fields_text(wire_fields(m))
}

fn push_field(out: &mut Vec<(String, String)>, key: &str, value: String)
    ensures
        field_views(final(out)@) == field_views(old(out)@).push((key@, value@)),
{
    out.push((key.to_owned(), value));
    assert(field_views(out@) =~= field_views(old(out)@).push((key@, value@)));
}

/// The three fields that most messages begin with.
fn addressed(rem: &Peer, dest: String, cmd: &str) -> (out: Vec<(String, String)>)
    ensures
        field_views(out@) == seq![(KEY_REM@, peer_text(rem@)), (KEY_DEST@, dest@), (KEY_CMD@, cmd@)],
{
    let mut out: Vec<(String, String)> = Vec::new();
    assert(field_views(out@) =~= Seq::<Field>::empty());
    push_field(&mut out, KEY_REM, rem.to_string());
    push_field(&mut out, KEY_DEST, dest);
    push_field(&mut out, KEY_CMD, cmd.to_owned());
    out
}

/// The fields of a message that carries a list under `key`.
fn listing_fields(rem: &Peer, dest: &Peer, cmd: &str, key: &str, list: String) -> (out: Vec<
    (String, String),
>)
    ensures
        field_views(out@) == seq![
            (KEY_REM@, peer_text(rem@)),
            (KEY_DEST@, peer_text(dest@)),
            (KEY_CMD@, cmd@),
            (key@, list@),
        ],
{
    let mut out = addressed(rem, dest.to_string(), cmd);
    push_field(&mut out, key, list);
    out
}

/// The fields of a handshake.
fn announce_fields(rem: &Peer) -> (out: Vec<(String, String)>)
    ensures
        field_views(out@) == seq![(KEY_REM@, peer_text(rem@)), (KEY_CMD@, CMD_ANNOUNCE_NAME@)],
{
    let mut out: Vec<(String, String)> = Vec::new();
    assert(field_views(out@) =~= Seq::<Field>::empty());
    push_field(&mut out, KEY_REM, rem.to_string());
    push_field(&mut out, KEY_CMD, CMD_ANNOUNCE_NAME.to_owned());
    out
}

/// The fields of a message that carries free text.
fn text_fields(rem: &Peer, dest: String, cmd: &str, content: &String) -> (out: Vec<
    (String, String),
>)
    ensures
        field_views(out@) == seq![
            (KEY_REM@, peer_text(rem@)),
            (KEY_DEST@, dest@),
            (KEY_CMD@, cmd@),
            (KEY_CONTENT@, quoted(content@)),
        ],
{
    let mut out = addressed(rem, dest, cmd);
    push_field(&mut out, KEY_CONTENT, quoted_text(content));
    out
}

/// The fields of an offer, or of the answer to one where `response` is given.
fn offer_fields(rem: &Peer, dest: &Peer, response: Option<bool>, offer: &Offer) -> (out: Vec<
    (String, String),
>)
    ensures
        field_views(out@) == (match response {
            None => seq![
                (KEY_REM@, peer_text(rem@)),
                (KEY_DEST@, peer_text(dest@)),
                (KEY_CMD@, CMD_TRADE_OFFER@),
                (KEY_OFFER@, offer_text(escape_offer(offer@))),
            ],
            Some(answer) => seq![
                (KEY_REM@, peer_text(rem@)),
                (KEY_DEST@, peer_text(dest@)),
                (KEY_CMD@, CMD_TRADE_CONFIRM@),
                (KEY_RESPONSE@, bool_text(answer)),
                (KEY_OFFER@, offer_text(escape_offer(offer@))),
            ],
        }),
{
    let text = offer.escaped().to_string();
    match response {
        None => {
            let mut out = addressed(rem, dest.to_string(), CMD_TRADE_OFFER);
            push_field(&mut out, KEY_OFFER, text);
            out
        },
        Some(answer) => {
            let mut out = addressed(rem, dest.to_string(), CMD_TRADE_CONFIRM);
            let word = if answer {
                TRUE
            } else {
                FALSE
            };
            push_field(&mut out, KEY_RESPONSE, word.to_owned());
            push_field(&mut out, KEY_OFFER, text);
            out
        },
    }
}

fn quoted_text(content: &String) -> (out: String)
    ensures
        out@ == quoted(content@),
{
    let v = chars_of(content.as_str());
    let mut out = String::new();
    out.push('"');
    push_escaped(&mut out, &v);
    out.push('"');
    assert(out@ =~= quoted(content@));
    out
}

fn peers_text(peers: &Vec<Peer>) -> (out: String)
    ensures
        out@ == join(peer_texts(views(peers@)), seq![',']),
{
    let ghost texts = peer_texts(views(peers@));
    let mut out = String::new();
    let mut i: usize = 0;
    assert(texts.take(0) == Seq::<Seq<char>>::empty());
    while i < peers.len()
        invariant
            i <= peers.len(),
            texts == peer_texts(views(peers@)),
            out@ == join(texts.take(i as int), seq![',']),
        decreases peers.len() - i,
    {
        if i > 0 {
            out.push(',');
        }
        peers[i].push_text(&mut out);
        assert(texts.take(i + 1).drop_last() == texts.take(i as int));
        assert(texts.take(i + 1).last() == peer_text(peers@[i as int]@));
        assert(out@ =~= join(texts.take(i + 1), seq![',']));
        i += 1;
    }
    assert(texts.take(peers.len() as int) == texts);
    out
}

impl FNP {
    /// The peer that sent the message.
    pub fn rem(&self) -> (r: &Peer)
        ensures
            r@ == sender(self@),
    {
        match self {
            FNP::Message { rem, .. } => rem,
            FNP::Broadcast { rem, .. } => rem,
            FNP::TradeOffer { rem, .. } => rem,
            FNP::TradeConfirm { rem, .. } => rem,
            FNP::InventoryInspection { rem, .. } => rem,
            FNP::InventoryShowcase { rem, .. } => rem,
            FNP::AnnounceName { rem } => rem,
            FNP::PeerList { rem, .. } => rem,
            FNP::RejectConnection { rem, .. } => rem,
        }
    }

    /// The peer that the message is for; none for a broadcast and for a handshake.
    pub fn dest(&self) -> (r: Option<&Peer>)
        ensures
            r.deep_view() == destination(self@),
    {
        match self {
            FNP::Broadcast { .. } => None,
            FNP::AnnounceName { .. } => None,
            FNP::Message { dest, .. } => Some(dest),
            FNP::TradeOffer { dest, .. } => Some(dest),
            FNP::TradeConfirm { dest, .. } => Some(dest),
            FNP::InventoryInspection { dest, .. } => Some(dest),
            FNP::InventoryShowcase { dest, .. } => Some(dest),
            FNP::PeerList { dest, .. } => Some(dest),
            FNP::RejectConnection { dest, .. } => Some(dest),
        }
    }

    /// The message with `rem` as its sender and nothing else changed.
    pub fn set_rem(self, rem: Peer) -> (r: Self)
        ensures
            r@ == with_sender(self@, rem@),
    {
        match self {
            FNP::Message { dest, content, .. } => FNP::Message { rem, dest, content },
            FNP::Broadcast { content, .. } => FNP::Broadcast { rem, content },
            FNP::TradeOffer { dest, offer, .. } => FNP::TradeOffer { rem, dest, offer },
            FNP::TradeConfirm { dest, response, offer, .. } => FNP::TradeConfirm {
                rem,
                dest,
                response,
                offer,
            },
            FNP::InventoryInspection { dest, .. } => FNP::InventoryInspection { rem, dest },
            FNP::InventoryShowcase { dest, inventory, .. } => FNP::InventoryShowcase {
                rem,
                dest,
                inventory,
            },
            FNP::AnnounceName { .. } => FNP::AnnounceName { rem },
            FNP::PeerList { dest, peers, .. } => FNP::PeerList { rem, dest, peers },
            FNP::RejectConnection { dest, .. } => FNP::RejectConnection { rem, dest },
        }
    }

    /// The fields that the message is written with, in order.
    pub fn fields(&self) -> (out: Vec<(String, String)>)
        ensures
            field_views(out@) == wire_fields(self@),
    {
        match self {
            FNP::Message { rem, dest, content } => text_fields(
                rem,
                dest.to_string(),
                CMD_MESSAGE,
                content,
            ),
            FNP::Broadcast { rem, content } => text_fields(
                rem,
                EVERYONE.to_owned(),
                CMD_BROADCAST,
                content,
            ),
            FNP::TradeOffer { rem, dest, offer } => offer_fields(rem, dest, None, offer),
            FNP::TradeConfirm { rem, dest, response, offer } => offer_fields(
                rem,
                dest,
                Some(*response),
                offer,
            ),
            FNP::InventoryInspection { rem, dest } => addressed(
                rem,
                dest.to_string(),
                CMD_INVENTORY_INSPECTION,
            ),
            FNP::InventoryShowcase { rem, dest, inventory } => listing_fields(
                rem,
                dest,
                CMD_INVENTORY_SHOWCASE,
                KEY_INVENTORY,
                inventory.escaped().to_string(),
            ),
            FNP::AnnounceName { rem } => announce_fields(rem),
            FNP::PeerList { rem, dest, peers } => listing_fields(
                rem,
                dest,
                CMD_PEER_LIST,
                KEY_PEERS,
                peers_text(peers),
            ),
            FNP::RejectConnection { rem, dest } => addressed(
                rem,
                dest.to_string(),
                CMD_REJECT_CONNECTION,
            ),
        }
    }

    /// The line that the message is written as, without a line end.
    pub fn to_string(&self) -> (out: String)
        ensures
            out@ == encode(self@),
    {
        let fields = self.fields();
        let ghost all = field_views(fields@);
        let mut out = PREAMBLE.to_owned();
        let mut i: usize = 0;
        assert(all.take(0) == Seq::<Field>::empty());
        assert(PREAMBLE@ + fields_text(all.take(0)) == PREAMBLE@);
        while i < fields.len()
            invariant
                i <= fields.len(),
                all == field_views(fields@),
                out@ == PREAMBLE@ + fields_text(all.take(i as int)),
            decreases fields.len() - i,
        {
            out.push(' ');
            out.append(fields[i].0.as_str());
            out.push(':');
            out.push(' ');
            out.append(fields[i].1.as_str());
            out.push(';');
            assert(all.take(i + 1).drop_last() == all.take(i as int));
            assert(all.take(i + 1).last() == all[i as int]);
            assert(out@ =~= PREAMBLE@ + fields_text(all.take(i + 1)));
            i += 1;
        }
        assert(all.take(fields.len() as int) == all);
        out
    }
}

impl Clone for FNP {
    fn clone(&self) -> (r: Self)
        ensures
            r@ == self@,
    {
        match self {
            FNP::Message { rem, dest, content } => FNP::Message {
                rem: rem.clone(),
                dest: dest.clone(),
                content: content.clone(),
            },
            FNP::Broadcast { rem, content } => FNP::Broadcast {
                rem: rem.clone(),
                content: content.clone(),
            },
            FNP::TradeOffer { rem, dest, offer } => FNP::TradeOffer {
                rem: rem.clone(),
                dest: dest.clone(),
                offer: offer.clone(),
            },
            FNP::TradeConfirm { rem, dest, response, offer } => FNP::TradeConfirm {
                rem: rem.clone(),
                dest: dest.clone(),
                response: *response,
                offer: offer.clone(),
            },
            FNP::InventoryInspection { rem, dest } => FNP::InventoryInspection {
                rem: rem.clone(),
                dest: dest.clone(),
            },
            FNP::InventoryShowcase { rem, dest, inventory } => FNP::InventoryShowcase {
                rem: rem.clone(),
                dest: dest.clone(),
                inventory: inventory.clone(),
            },
            FNP::AnnounceName { rem } => FNP::AnnounceName { rem: rem.clone() },
            FNP::PeerList { rem, dest, peers } => FNP::PeerList {
                rem: rem.clone(),
                dest: dest.clone(),
                peers: clone_peers(peers),
            },
            FNP::RejectConnection { rem, dest } => FNP::RejectConnection {
                rem: rem.clone(),
                dest: dest.clone(),
            },
        }
    }
}

} // verus!
