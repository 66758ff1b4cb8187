//! Routing and per-notification handling.
//!
//! A notification names a file; the file's freshly appended line is read by
//! the caller and handed in here.  The line is routed by the file's basename
//! to one of the three schemas, parsed, and formatted; the caller then either
//! delivers the display text or logs the rejection.

use vstd::prelude::*;

use crate::chat;
use crate::connection;
use crate::general;
use crate::json::{
    append_escaped, escape_free, fold_from, json_escape, json_step, key_colon, spec_parse_object,
    JsonV, LineState, Mode, ParseError,
};

verus! {

/// The suffix of `s` after the last occurrence of `sep`; all of `s` if `sep`
/// does not occur.
pub open spec fn tail_after_last(s: Seq<char>, sep: char) -> Seq<char>
    decreases s.len(),
{
    if s.len() == 0 {
        s
    } else if s.last() == sep {
        Seq::empty()
    } else {
        tail_after_last(s.drop_last(), sep).push(s.last())
    }
}

proof fn lemma_tail_subrange(s: Seq<char>, sep: char, k: int)
    requires
        0 <= k <= s.len(),
        k == 0 || s[k - 1] == sep,
        forall|m: int| k <= m < s.len() ==> s[m] != sep,
    ensures
        tail_after_last(s, sep) == s.subrange(k, s.len() as int),
    decreases s.len(),
{
    if s.len() == k {
        if k == 0 {
            assert(s.subrange(0, 0) =~= s);
        } else {
            assert(s.subrange(k, s.len() as int) =~= Seq::<char>::empty());
        }
    } else {
        let t = s.drop_last();
        assert(s[s.len() - 1] != sep);
        lemma_tail_subrange(t, sep, k);
        assert(s.subrange(k, s.len() as int) =~= t.subrange(k, t.len() as int).push(s.last()));
    }
}

/// The basename of a `/`-separated path.
pub fn basename(path: &str) -> (r: String)
    ensures
        r@ == tail_after_last(path@, '/'),
{
    let n = path.unicode_len();
    let mut start: usize = 0;
    let mut i: usize = 0;
    while i < n
        invariant
            n == path@.len(),
            i <= n,
            start <= i,
            start == 0 || path@[start as int - 1] == '/',
            forall|m: int| start <= m < i ==> path@[m] != '/',
        decreases n - i,
    {
        if path.get_char(i) == '/' {
            start = i + 1;
        }
        i = i + 1;
    }
    proof {
        lemma_tail_subrange(path@, '/', start as int);
    }
    let r = path.substring_char(start, n);
    String::from_str(r)
}

/// Which schema a file's lines belong to.  Chosen by basename alone, never by
/// the line's content; any file other than the chat and general logs carries
/// connection records.
#[derive(Clone, Copy, Debug, PartialEq, Eq, Structural)]
pub enum Route {
    Chat,
    General,
    Connection,
}

/// The route of a path: by its basename, with connection as the rest.
pub open spec fn route_of(path: Seq<char>) -> Route {
    if tail_after_last(path, '/') == "chat.txt"@ {
        Route::Chat
    } else if tail_after_last(path, '/') == "general.txt"@ {
        Route::General
    } else {
        Route::Connection
    }
}

/// Route a notification's path.
pub fn route_of_path(path: &str) -> (r: Route)
    ensures
        r == route_of(path@),
{
    let b = basename(path);
    if b == String::from_str("chat.txt") {
        Route::Chat
    } else if b == String::from_str("general.txt") {
        Route::General
    } else {
        Route::Connection
    }
}

/// The last line of a file's text: the segment after the final line break,
/// with a trailing carriage return stripped; `None` only for empty text.
pub open spec fn spec_last_line(c: Seq<char>) -> Option<Seq<char>> {
    if c.len() == 0 {
        None
    } else {
        let body = if c.last() == '\n' {
            c.drop_last()
        } else {
            c
        };
        let seg = tail_after_last(body, '\n');
        if seg.len() > 0 && seg.last() == '\r' {
            Some(seg.drop_last())
        } else {
            Some(seg)
        }
    }
}

/// The freshly appended line: the last line of the file's text.  Lines
/// appended earlier in the same burst are skipped, as the watcher coalesces
/// them into one notification.
pub fn last_line(content: &str) -> (r: Option<String>)
    ensures
        match r {
            Some(l) => spec_last_line(content@) == Some(l@),
            None => spec_last_line(content@) is None,
        },
{
    let n = content.unicode_len();
    if n == 0 {
        return None;
    }
    let end = if content.get_char(n - 1) == '\n' {
        n - 1
    } else {
        n
    };
    let mut start: usize = 0;
    let mut i: usize = 0;
    while i < end
        invariant
            n == content@.len(),
            end <= n,
            i <= end,
            start <= i,
            start == 0 || content@[start as int - 1] == '\n',
            forall|m: int| start <= m < i ==> content@[m] != '\n',
        decreases end - i,
    {
        if content.get_char(i) == '\n' {
            start = i + 1;
        }
        i = i + 1;
    }
    let end2 = if start < end && content.get_char(end - 1) == '\r' {
        end - 1
    } else {
        end
    };
    proof {
        let body = if content@.last() == '\n' {
            content@.drop_last()
        } else {
            content@
        };
        assert(body =~= content@.take(end as int));
        lemma_tail_subrange(body, '\n', start as int);
        assert(body.subrange(start as int, end as int) =~= content@.subrange(
            start as int,
            end as int,
        ));
        assert(content@.subrange(start as int, end as int).len() == end - start);
        if start < end {
            assert(content@.subrange(start as int, end as int).last() == content@[end - 1]);
            assert(content@.subrange(start as int, end as int).drop_last() =~= content@.subrange(
                start as int,
                end as int - 1,
            ));
        }
    }
    let seg = content.substring_char(start, end2);
    Some(String::from_str(seg))
}

/// What handling one line calls for.
#[derive(Debug)]
pub enum HandleOutcome {
    /// The line parsed: deliver this display text.
    Deliver(String),
    /// The line was rejected by the named schema with this error; nothing is
    /// delivered.
    Rejected(Route, ParseError),
}

/// Mathematical model of a [`HandleOutcome`].
pub enum HandleOutcomeV {
    Deliver(Seq<char>),
    Rejected(Route, ParseError),
}

impl View for HandleOutcome {
    type V = HandleOutcomeV;

    open spec fn view(&self) -> HandleOutcomeV {
        match self {
            HandleOutcome::Deliver(t) => HandleOutcomeV::Deliver(t@),
            HandleOutcome::Rejected(r, e) => HandleOutcomeV::Rejected(*r, *e),
        }
    }
}

/// What handling a line on a path yields: the path's route picks the schema,
/// the schema parses the line, and a parsed event is formatted for delivery.
pub open spec fn spec_handle(path: Seq<char>, line: Seq<char>) -> HandleOutcomeV {
    match route_of(path) {
        Route::Chat => match chat::spec_parse_chat(line) {
            Ok(m) => HandleOutcomeV::Deliver(chat::message_display(m)),
            Err(e) => HandleOutcomeV::Rejected(Route::Chat, e),
        },
        Route::General => match general::spec_parse_general(line) {
            Ok(m) => HandleOutcomeV::Deliver(general::message_display(m)),
            Err(e) => HandleOutcomeV::Rejected(Route::General, e),
        },
        Route::Connection => match connection::spec_parse_connection(line) {
            Ok(m) => HandleOutcomeV::Deliver(connection::message_display(m)),
            Err(e) => HandleOutcomeV::Rejected(Route::Connection, e),
        },
    }
}

/// Handle one freshly appended line of the file at `path`.
pub fn handle_line(path: &str, line: &str) -> (r: HandleOutcome)
    ensures
        r@ == spec_handle(path@, line@),
{
    match route_of_path(path) {
        Route::Chat => match chat::Message::parse(line) {
            Ok(m) => HandleOutcome::Deliver(m.to_display()),
            Err(e) => HandleOutcome::Rejected(Route::Chat, e),
        },
        Route::General => match general::Message::parse(line) {
            Ok(m) => HandleOutcome::Deliver(m.to_display()),
            Err(e) => HandleOutcome::Rejected(Route::General, e),
        },
        Route::Connection => match connection::Message::parse(line) {
            Ok(m) => HandleOutcome::Deliver(m.to_display()),
            Err(e) => HandleOutcome::Rejected(Route::Connection, e),
        },
    }
}

/// The webhook body that carries a display text: `{"content":"<text>"}`.
pub open spec fn payload_json(t: Seq<char>) -> Seq<char> {
    "{\"content\":\""@ + json_escape(t) + "\"}"@
}

/// Build the webhook body for a display text.
pub fn content_payload(text: &str) -> (r: String)
    ensures
        r@ == payload_json(text@),
{
    let mut out = String::from_str("{\"content\":\"");
    append_escaped(&mut out, text);
    out.append("\"}");
    out
}

/// Routing is by filename alone: a line on a path whose basename is
/// `chat.txt` is always handled by the chat schema, whatever the line holds.
pub proof fn lemma_chat_routing(path: Seq<char>, line: Seq<char>)
    requires
        tail_after_last(path, '/') == "chat.txt"@,
    ensures
        spec_handle(path, line) == (match chat::spec_parse_chat(line) {
            Ok(m) => HandleOutcomeV::Deliver(chat::message_display(m)),
            Err(e) => HandleOutcomeV::Rejected(Route::Chat, e),
        }),
{
}

/// The webhook body is well-formed JSON for every display text: it parses
/// as an object whose single member `content` holds exactly that text.
pub proof fn lemma_payload_is_json(t: Seq<char>)
    ensures
        spec_parse_object(payload_json(t)) == Ok::<Seq<(Seq<char>, JsonV)>, ParseError>(
            seq![("content"@, JsonV::Str(t))],
        ),
{
    reveal_strlit("{\"content\":\"");
    reveal_strlit("\"}");
    reveal_strlit("content");
    let cn = "content"@;
    assert(escape_free(cn));
    let st0 = crate::json::init_state();
    let lit1 = "{\"content\":\""@;
    let lit3 = "\"}"@;
    let e1 = json_escape(t);
    let s = payload_json(t);
    assert(s == lit1 + e1 + lit3);
    assert(lit1 =~= seq!['{'] + key_colon(cn) + seq!['"']);
    crate::json::lemma_fold_from_app(st0, seq!['{'] + key_colon(cn), seq!['"']);
    crate::json::lemma_fold_from_app(st0, seq!['{'], key_colon(cn));
    crate::json::lemma_fold_from_one(st0, '{');
    let st1 = LineState { mode: Mode::BeforeKey, ..st0 };
    assert(json_step(st0, '{') == st1);
    crate::json::lemma_member_key(st1, cn);
    let st2 = LineState { mode: Mode::BeforeVal, key: cn, sacc: cn, ..st1 };
    assert(fold_from(st1, key_colon(cn)) =~= st2);
    crate::json::lemma_fold_from_one(st2, '"');
    let st3 = LineState { mode: Mode::InStr, key: cn, sacc: Seq::empty(), ..st2 };
    assert(json_step(st2, '"') == st3);
    assert(fold_from(st0, lit1) == st3);
    crate::json::lemma_fold_str_body(st3, t);
    assert(Seq::empty() + t =~= t);
    let st4 = LineState { mode: Mode::InStr, key: cn, sacc: t, ..st2 };
    assert(fold_from(st3, e1) =~= st4);
    crate::json::lemma_fold_from_app(st0, lit1 + e1, lit3);
    crate::json::lemma_fold_from_app(st0, lit1, e1);
    assert(lit3 =~= seq!['"', '}']);
    crate::json::lemma_fold_from_two(st4, '"', '}');
    let st5 = json_step(json_step(st4, '"'), '}');
    assert(st5.mode == Mode::Done);
    assert(st5.fields =~= seq![(cn, JsonV::Str(t))]);
    assert(fold_from(st0, s).mode == Mode::Done);
    crate::json::lemma_fold_line_is_fold_from(s);
}

/// End to end for the chat log: the JSON line written for any chat message,
/// appearing on a path routed to the chat schema, is delivered as exactly
/// that message's display text.
pub proof fn lemma_chat_wire_delivery(path: Seq<char>, m: chat::MessageV)
    requires
        route_of(path) == Route::Chat,
    ensures
        spec_handle(path, chat::message_json(m)) == HandleOutcomeV::Deliver(
            chat::message_display(m),
        ),
{
    chat::lemma_chat_message_round_trip(m);
}

/// End to end for the connection log: the JSON line written for any
/// connection message, appearing on a path routed to the connection schema,
/// is delivered as exactly that message's display text.
pub proof fn lemma_connection_wire_delivery(path: Seq<char>, m: connection::MessageV)
    requires
        route_of(path) == Route::Connection,
    ensures
        spec_handle(path, connection::message_json(m)) == HandleOutcomeV::Deliver(
            connection::message_display(m),
        ),
{
    connection::lemma_connection_message_round_trip(m);
}

/// End to end for the general log: the JSON line written for any general
/// message, appearing on a path routed to the general schema, is delivered
/// as exactly that message's display text.
pub proof fn lemma_general_wire_delivery(path: Seq<char>, m: general::MessageV)
    requires
        route_of(path) == Route::General,
    ensures
        spec_handle(path, general::message_json(m)) == HandleOutcomeV::Deliver(
            general::message_display(m),
        ),
{
    general::lemma_general_message_round_trip(m);
}

/// A line that is not a well-formed JSON object is never delivered, on any
/// path: the outcome is a rejection by the path's schema.
pub proof fn lemma_malformed_line_not_delivered(path: Seq<char>, line: Seq<char>)
    requires
        spec_parse_object(line) is Err,
    ensures
        spec_handle(path, line) is Rejected,
{
}

} // verus!
