//! The commands of the terminal: a line that begins with `$` is a command,
//!
//!  - `$p` / `$pescar`
//!  - `$l` / `$listar`
//!  - `$i` / `$inventario` [<peer>]
//!  - `$t` / `$troca` <peer> <offer...>
//!  - `$c` / `$confirmar` <s|n> <peer>
//!  - `$q` / `$quit`
//!  - `$h` / `$help`
//!
//! in upper or lower case; every other line is text to send.
use crate::text::{
    chars_of, is_space, is_whitespace, join, lemma_views_push, slice_of, str_eq, string_of,
    trim, trimmed, views,
};
use vstd::prelude::*;
use vstd::string::StringExecFns;

verus! {

/// A command of the terminal.
#[derive(Debug, Eq, PartialEq)]
pub enum Command {
    Pescar,
    List,
    Inventario(Option<String>),
    Trade { peer_str: String, offer_str: String },
    ConfirmTrade { resp: bool, peer_str: String },
    Quit,
    Help,
    Unknown(String),
}

/// A command as the contracts speak of it.
pub enum CommandView {
    Pescar,
    List,
    Inventario(Option<Seq<char>>),
    Trade { peer_str: Seq<char>, offer_str: Seq<char> },
    ConfirmTrade { resp: bool, peer_str: Seq<char> },
    Quit,
    Help,
    Unknown(Seq<char>),
}

impl View for Command {
    type V = CommandView;

    open spec fn view(&self) -> CommandView {
        match self {
            Command::Pescar => CommandView::Pescar,
            Command::List => CommandView::List,
            Command::Inventario(peer) => CommandView::Inventario(peer.deep_view()),
            Command::Trade { peer_str, offer_str } => CommandView::Trade {
                peer_str: peer_str@,
                offer_str: offer_str@,
            },
            Command::ConfirmTrade { resp, peer_str } => CommandView::ConfirmTrade {
                resp: *resp,
                peer_str: peer_str@,
            },
            Command::Quit => CommandView::Quit,
            Command::Help => CommandView::Help,
            Command::Unknown(line) => CommandView::Unknown(line@),
        }
    }
}

/// What `str::to_lowercase` makes of `s`.
pub uninterp spec fn lowercase(s: Seq<char>) -> Seq<char>;

/// `str::to_lowercase`: the lowercase form of `s` by the rules of Unicode.
/// The contract only names the result.
#[verifier::external_body]
fn to_lowercase(s: &str) -> (r: String)
    ensures
        r@ == lowercase(s@),
{
    s.to_lowercase()
}

/// How many characters stand before the first whitespace of `s`.
pub open spec fn word_len(s: Seq<char>) -> nat
    decreases s.len(),
{
    if s.len() == 0 || is_space(s[0]) {
        0
    } else {
        1 + word_len(s.drop_first())
    }
}

/// The words of `s`: its longest runs of characters that are no whitespace.
pub open spec fn words(s: Seq<char>) -> Seq<Seq<char>>
    decreases s.len(),
{
    if s.len() == 0 {
        Seq::empty()
    } else if is_space(s[0]) {
        words(s.drop_first())
    } else {
        let n = word_len(s) as int;
        if n < s.len() {
            seq![s.take(n)] + words(s.skip(n))
        } else {
            seq![s]
        }
    }
}

/// The word at place `i`, or the empty text where there are fewer words.
pub open spec fn word_or_empty(ws: Seq<Seq<char>>, i: int) -> Seq<char> {
    if 0 <= i < ws.len() {
        ws[i]
    } else {
        Seq::empty()
    }
}

/// The words from place `from` on, with one space between them.
pub open spec fn rest_of(ws: Seq<Seq<char>>, from: int) -> Seq<char> {
    if 0 <= from <= ws.len() {
        join(ws.skip(from), seq![' '])
    } else {
        Seq::empty()
    }
}

/// The command that the words `ws` of the line `line` stand for, where
/// `command` is the first word in lower case and `answer` the second, if there is one.
pub open spec fn command_from_words(
    line: Seq<char>,
    ws: Seq<Seq<char>>,
    command: Seq<char>,
    answer: Option<Seq<char>>,
) -> CommandView {
    if command == "$p"@ || command == "$pescar"@ {
        CommandView::Pescar
    } else if command == "$l"@ || command == "$listar"@ {
        CommandView::List
    } else if command == "$i"@ || command == "$inventario"@ {
        CommandView::Inventario(
            if ws.len() > 1 {
                Some(ws[1])
            } else {
                None
            },
        )
    } else if command == "$t"@ || command == "$troca"@ {
        CommandView::Trade { peer_str: word_or_empty(ws, 1), offer_str: rest_of(ws, 2) }
    } else if command == "$c"@ || command == "$confirmar"@ {
        CommandView::ConfirmTrade {
            resp: answer == Some("s"@) || answer == Some("sim"@),
            peer_str: word_or_empty(ws, 2),
        }
    } else if command == "$q"@ || command == "$quit"@ {
        CommandView::Quit
    } else if command == "$h"@ || command == "$help"@ {
        CommandView::Help
    } else {
        CommandView::Unknown(line)
    }
}

/// The command that the line `line` stands for; none where the line, without
/// the whitespace around it, is empty or does not begin with `$`.
pub open spec fn command_of(line: Seq<char>) -> Option<CommandView> {
    let t = trim(line);
    if t.len() == 0 || t[0] != '$' {
        None
    } else {
        let ws = words(t);
        Some(
            command_from_words(
                t,
                ws,
                lowercase(word_or_empty(ws, 0)),
                if ws.len() > 1 {
                    Some(lowercase(ws[1]))
                } else {
                    None
                },
            ),
        )
    }
}

proof fn lemma_word_len(s: Seq<char>, k: int)
    requires
        0 <= k <= s.len(),
        forall|j: int| 0 <= j < k ==> !is_space(s[j]),
    ensures
        word_len(s) == k + word_len(s.skip(k)),
    decreases k,
{
    if k == 0 {
        assert(s.skip(0) == s);
    } else {
        let rest = s.drop_first();
        assert forall|j: int| 0 <= j < k - 1 implies !is_space(rest[j]) by {
            assert(rest[j] == s[j + 1]);
        }
        lemma_word_len(rest, k - 1);
        assert(rest.skip(k - 1) == s.skip(k));
    }
}

/// The words of `v`.
pub fn split_whitespace(v: &Vec<char>) -> (out: Vec<Vec<char>>)
    ensures
        views(out@) == words(v@),
{
    let mut out: Vec<Vec<char>> = Vec::new();
    let mut i: usize = 0;
    assert(v@.skip(0) == v@);
    assert(views(out@) + words(v@) == words(v@));
    while i < v.len()
        invariant
            i <= v.len(),
            words(v@) == views(out@) + words(v@.skip(i as int)),
        decreases v.len() - i,
    {
        let ghost rest = v@.skip(i as int);
        if is_whitespace(v[i]) {
            assert(rest.drop_first() == v@.skip(i + 1));
            i += 1;
        } else {
            let mut j: usize = i + 1;
            while j < v.len() && !is_whitespace(v[j])
                invariant
                    i < j <= v.len(),
                    forall|k: int| i <= k < j ==> !is_space(v@[k]),
                decreases v.len() - j,
            {
                j += 1;
            }
            proof {
                lemma_word_len(rest, j - i);
                assert(rest.skip(j - i) == v@.skip(j as int));
            }
            let piece = slice_of(v, i, j);
            assert(piece@ == rest.take(j - i));
            proof {
                lemma_views_push(out@, piece);
            }
            let ghost before = views(out@);
            out.push(piece);
            if j < v.len() {
                assert(words(rest) == seq![rest.take(j - i)] + words(rest.skip(j - i)));
                assert(before + words(rest) =~= views(out@) + words(v@.skip(j as int)));
            } else {
                assert(rest.take(j - i) == rest);
                assert(words(v@.skip(j as int)) == Seq::<Seq<char>>::empty());
                assert(before + words(rest) =~= views(out@) + words(v@.skip(j as int)));
            }
            i = j;
        }
    }
    assert(words(v@.skip(v.len() as int)) == Seq::<Seq<char>>::empty());
    assert(views(out@) + Seq::<Seq<char>>::empty() == views(out@));
    out
}

fn word_at(ws: &Vec<String>, i: usize) -> (out: String)
    ensures
        out@ == word_or_empty(views(ws@), i as int),
{
    if i < ws.len() {
        ws[i].clone()
    } else {
        String::new()
    }
}

fn rest_from(ws: &Vec<String>, from: usize) -> (out: String)
    ensures
        out@ == rest_of(views(ws@), from as int),
{
    let mut out = String::new();
    if from > ws.len() {
        return out;
    }
    let ghost tail = views(ws@).skip(from as int);
    let mut i: usize = from;
    assert(tail.take(0) == Seq::<Seq<char>>::empty());
    while i < ws.len()
        invariant
            from <= i <= ws.len(),
            tail == views(ws@).skip(from as int),
            out@ == join(tail.take(i - from), seq![' ']),
        decreases ws.len() - i,
    {
        if i > from {
            out.push(' ');
        }
        out.append(ws[i].as_str());
        assert(tail.take(i - from + 1).drop_last() == tail.take(i - from));
        assert(tail.take(i - from + 1).last() == ws@[i as int]@);
        assert(out@ =~= join(tail.take(i - from + 1), seq![' ']));
        i += 1;
    }
    assert(tail.take(ws.len() - from) == tail);
    out
}

impl Command {
    /// The command that the words `words` of the line `line` stand for, where
    /// `command` is the first word in lower case and `answer` the second, if
    /// there is one.
    pub fn from_words(line: &str, words: &Vec<String>, command: &str, answer: Option<&str>) -> (c:
        Command)
        ensures
            c@ == command_from_words(line@, views(words@), command@, answer.deep_view()),
    {
        if str_eq(command, "$p") || str_eq(command, "$pescar") {
            Command::Pescar
        } else if str_eq(command, "$l") || str_eq(command, "$listar") {
            Command::List
        } else if str_eq(command, "$i") || str_eq(command, "$inventario") {
            if words.len() > 1 {
                Command::Inventario(Some(words[1].clone()))
            } else {
                Command::Inventario(None)
            }
        } else if str_eq(command, "$t") || str_eq(command, "$troca") {
            Command::Trade { peer_str: word_at(words, 1), offer_str: rest_from(words, 2) }
        } else if str_eq(command, "$c") || str_eq(command, "$confirmar") {
            let resp = match answer {
                Some(a) => str_eq(a, "s") || str_eq(a, "sim"),
                None => false,
            };
            Command::ConfirmTrade { resp, peer_str: word_at(words, 2) }
        } else if str_eq(command, "$q") || str_eq(command, "$quit") {
            Command::Quit
        } else if str_eq(command, "$h") || str_eq(command, "$help") {
            Command::Help
        } else {
            Command::Unknown(line.to_owned())
        }
    }
}

fn strings_of(pieces: &Vec<Vec<char>>) -> (out: Vec<String>)
    ensures
        views(out@) == views(pieces@),
{
    let mut out: Vec<String> = Vec::new();
    let mut i: usize = 0;
    while i < pieces.len()
        invariant
            i <= pieces.len(),
            views(out@) == views(pieces@).take(i as int),
        decreases pieces.len() - i,
    {
        let s = string_of(&pieces[i]);
        proof {
            lemma_views_push(out@, s);
        }
        out.push(s);
        i += 1;
        assert(views(out@) =~= views(pieces@).take(i as int));
    }
    assert(views(pieces@).take(pieces.len() as int) == views(pieces@));
    out
}

/// Reads a line of the terminal as a command, if it is one.
pub fn parse_command(line: &str) -> (r: Option<Command>)
    ensures
        r.deep_view() == command_of(line@),
{
    let t = trimmed(&chars_of(line));
    if t.len() == 0 || t[0] != '$' {
        return None;
    }
    let ws = strings_of(&split_whitespace(&t));
    let text = string_of(&t);
    let command = to_lowercase(word_at(&ws, 0).as_str());
    if ws.len() > 1 {
        let answer = to_lowercase(ws[1].as_str());
        Some(Command::from_words(text.as_str(), &ws, command.as_str(), Some(answer.as_str())))
    } else {
        Some(Command::from_words(text.as_str(), &ws, command.as_str(), None))
    }
}

impl Clone for Command {
    fn clone(&self) -> (r: Self)
        ensures
            r@ == self@,
    {
        match self {
            Command::Pescar => Command::Pescar,
            Command::List => Command::List,
            Command::Inventario(None) => Command::Inventario(None),
            Command::Inventario(Some(peer)) => Command::Inventario(Some(peer.clone())),
            Command::Trade { peer_str, offer_str } => Command::Trade {
                peer_str: peer_str.clone(),
                offer_str: offer_str.clone(),
            },
            Command::ConfirmTrade { resp, peer_str } => Command::ConfirmTrade {
                resp: *resp,
                peer_str: peer_str.clone(),
            },
            Command::Quit => Command::Quit,
            Command::Help => Command::Help,
            Command::Unknown(line) => Command::Unknown(line.clone()),
        }
    }
}

impl DeepView for Command {
    type V = CommandView;

    open spec fn deep_view(&self) -> CommandView {
        self@
    }
}

} // verus!
