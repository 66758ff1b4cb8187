//! The chat record family: lines tagged `"chat"`.

use vstd::prelude::*;

use crate::json::{
    escape_free, fold_from, json_escape, json_step, key_colon, lookup, spec_parse_object,
    str_member, append_escaped, get_field, lemma_fold_from_app, lemma_fold_from_one, parse_object,
    JsonV, JsonValue, LineState, Mode, ParseError,
};

verus! {

/// A chat message; a missing `player_name` means the line was anonymous.
#[derive(Debug, PartialEq, Eq)]
pub struct Chat {
    pub text: String,
    pub player_name: Option<String>,
}

/// Mathematical model of a [`Chat`].
pub struct ChatV {
    pub text: Seq<char>,
    pub player_name: Option<Seq<char>>,
}

impl View for Chat {
    type V = ChatV;

    open spec fn view(&self) -> ChatV {
        ChatV {
            text: self.text@,
            player_name: match self.player_name {
                Option::Some(p) => Option::Some(p@),
                Option::None => Option::None,
            },
        }
    }
}

/// The tagged union of the chat family (one variant).
#[derive(Debug, PartialEq, Eq)]
pub enum Message {
    Chat(Chat),
}

/// Mathematical model of a chat [`Message`].
pub enum MessageV {
    Chat(ChatV),
}

impl View for Message {
    type V = MessageV;

    open spec fn view(&self) -> MessageV {
        match self {
            Message::Chat(c) => MessageV::Chat(c@),
        }
    }
}

/// The chat event denoted by an object's members: the tag must be `"chat"`,
/// `text` must be a string, and `player_name` may be absent, `null`, or a
/// string.  Extra members are ignored.
pub open spec fn chat_from_fields(fs: Seq<(Seq<char>, JsonV)>) -> Result<ChatV, ParseError> {
    match lookup(fs, "event_type"@) {
        Option::Some(JsonV::Str(t)) => {
            if t == "chat"@ {
                match lookup(fs, "text"@) {
                    Option::Some(JsonV::Str(x)) => {
                        match lookup(fs, "player_name"@) {
                            Option::None => Ok(ChatV { text: x, player_name: Option::None }),
                            Option::Some(JsonV::Null) => Ok(
                                ChatV { text: x, player_name: Option::None },
                            ),
                            Option::Some(JsonV::Str(p)) => Ok(
                                ChatV { text: x, player_name: Option::Some(p) },
                            ),
                            Option::Some(_) => Err(ParseError::WrongType),
                        }
                    },
                    Option::Some(_) => Err(ParseError::WrongType),
                    Option::None => Err(ParseError::MissingField),
                }
            } else {
                Err(ParseError::UnknownTag)
            }
        },
        Option::Some(_) => Err(ParseError::WrongType),
        Option::None => Err(ParseError::MissingField),
    }
}

/// What parsing a line with the chat schema yields.
pub open spec fn spec_parse_chat(s: Seq<char>) -> Result<MessageV, ParseError> {
    match spec_parse_object(s) {
        Ok(fs) => match chat_from_fields(fs) {
            Ok(c) => Ok(MessageV::Chat(c)),
            Err(e) => Err(e),
        },
        Err(e) => Err(e),
    }
}

/// The display text of a chat event: `"<player_name>: <text>"`, with an empty
/// name when the line was anonymous.
pub open spec fn chat_display(v: ChatV) -> Seq<char> {
    (match v.player_name {
        Option::Some(p) => p,
        Option::None => Seq::empty(),
    }) + ": "@ + v.text
}

/// The display text of a chat-family message.
pub open spec fn message_display(v: MessageV) -> Seq<char> {
    match v {
        MessageV::Chat(c) => chat_display(c),
    }
}

/// The JSON line that denotes a chat event.
pub open spec fn chat_json(v: ChatV) -> Seq<char> {
    "{\"event_type\":\"chat\",\"text\":\""@ + json_escape(v.text) + (match v.player_name {
        Option::Some(p) => "\",\"player_name\":\""@ + json_escape(p) + "\"}"@,
        Option::None => "\",\"player_name\":null}"@,
    })
}

/// The JSON line that denotes a chat-family message.
pub open spec fn message_json(v: MessageV) -> Seq<char> {
    match v {
        MessageV::Chat(c) => chat_json(c),
    }
}

impl Message {
    /// Parse one line with the chat schema.
    pub fn parse(line: &str) -> (r: Result<Message, ParseError>)
        ensures
            match r {
                Ok(m) => spec_parse_chat(line@) == Ok::<MessageV, ParseError>(m@),
                Err(e) => spec_parse_chat(line@) == Err::<MessageV, ParseError>(e),
            },
    {
        let fields = match parse_object(line) {
            Ok(f) => f,
            Err(e) => {
                return Err(e);
            },
        };
        match get_field(&fields, "event_type") {
            Some(JsonValue::Str(t)) => {
                if !(*t == String::from_str("chat")) {
                    return Err(ParseError::UnknownTag);
                }
            },
            Some(_) => {
                return Err(ParseError::WrongType);
            },
            None => {
                return Err(ParseError::MissingField);
            },
        }
        let text = match get_field(&fields, "text") {
            Some(JsonValue::Str(x)) => x.clone(),
            Some(_) => {
                return Err(ParseError::WrongType);
            },
            None => {
                return Err(ParseError::MissingField);
            },
        };
        let player_name = match get_field(&fields, "player_name") {
            None => None,
            Some(JsonValue::Null) => None,
            Some(JsonValue::Str(p)) => Some(p.clone()),
            Some(_) => {
                return Err(ParseError::WrongType);
            },
        };
        Ok(Message::Chat(Chat { text, player_name }))
    }

    /// The JSON line for this message, as the schema writes it.
    pub fn to_json(&self) -> (r: String)
        ensures
            r@ == message_json(self@),
    {
        match self {
            Message::Chat(c) => c.to_json(),
        }
    }

    /// The display text for this message.
    pub fn to_display(&self) -> (r: String)
        ensures
            r@ == message_display(self@),
    {
        match self {
            Message::Chat(c) => c.to_display(),
        }
    }
}

impl Chat {
    /// The JSON line for this event.
    pub fn to_json(&self) -> (r: String)
        ensures
            r@ == chat_json(self@),
    {
        let mut out = String::from_str("{\"event_type\":\"chat\",\"text\":\"");
        append_escaped(&mut out, self.text.as_str());
        match &self.player_name {
            Some(p) => {
                out.append("\",\"player_name\":\"");
                append_escaped(&mut out, p.as_str());
                out.append("\"}");
            },
            None => {
                out.append("\",\"player_name\":null}");
            },
        }
        out
    }

    /// The display text of this event.
    pub fn to_display(&self) -> (r: String)
        ensures
            r@ == chat_display(self@),
    {
        let mut out = match &self.player_name {
            Some(p) => p.clone(),
            None => String::new(),
        };
        out.append(": ");
        out.append(self.text.as_str());
        out
    }
}

/// The members that [`Chat::to_json`] writes, in order.
pub open spec fn chat_fields(v: ChatV) -> Seq<(Seq<char>, JsonV)> {
    seq![("event_type"@, JsonV::Str("chat"@)), ("text"@, JsonV::Str(v.text))].push(
        ("player_name"@, match v.player_name {
            Option::Some(p) => JsonV::Str(p),
            Option::None => JsonV::Null,
        }),
    )
}

/// Schema symmetry for the chat family: reading back the members that the
/// schema writes for an event yields that event again.
pub proof fn lemma_chat_round_trip(v: ChatV)
    ensures
        chat_from_fields(chat_fields(v)) == Ok::<ChatV, ParseError>(v),
{
    reveal_strlit("event_type");
    reveal_strlit("text");
    reveal_strlit("player_name");
    reveal_strlit("chat");
    let fs = chat_fields(v);
    assert(fs.len() == 3);
    assert(fs[0] == ("event_type"@, JsonV::Str("chat"@)));
    assert(fs.drop_first() =~= seq![
        ("text"@, JsonV::Str(v.text)),
        ("player_name"@, match v.player_name {
            Option::Some(p) => JsonV::Str(p),
            Option::None => JsonV::Null,
        }),
    ]);
    assert(fs.drop_first().drop_first() =~= seq![
        ("player_name"@, match v.player_name {
            Option::Some(p) => JsonV::Str(p),
            Option::None => JsonV::Null,
        }),
    ]);
    let pv = match v.player_name {
        Option::Some(p) => JsonV::Str(p),
        Option::None => JsonV::Null,
    };
    assert("event_type"@.len() == 10);
    assert("text"@.len() == 4);
    assert("player_name"@.len() == 11);
    assert(lookup(fs, "event_type"@) == Some(JsonV::Str("chat"@)));
    assert(lookup(fs.drop_first(), "text"@) == Some(JsonV::Str(v.text)));
    assert(lookup(fs, "text"@) == Some(JsonV::Str(v.text)));
    assert(lookup(fs.drop_first().drop_first(), "player_name"@) == Some(pv));
    assert(lookup(fs.drop_first(), "player_name"@) == Some(pv));
    assert(lookup(fs, "player_name"@) == Some(pv));
}

/// Full round trip for the chat family: the JSON line written for any chat
/// event parses back, with the chat schema, to that same event.
pub proof fn lemma_chat_json_parses_back(v: ChatV)
    ensures
        spec_parse_chat(chat_json(v)) == Ok::<MessageV, ParseError>(MessageV::Chat(v)),
{
    reveal_strlit("{\"event_type\":\"chat\",\"text\":\"");
    reveal_strlit("\",\"player_name\":\"");
    reveal_strlit("\",\"player_name\":null}");
    reveal_strlit("\"}");
    reveal_strlit("event_type");
    reveal_strlit("text");
    reveal_strlit("player_name");
    reveal_strlit("chat");
    reveal_strlit("null");
    reveal_strlit("true");
    reveal_strlit("false");
    let e = "event_type"@;
    let t = "text"@;
    let pn = "player_name"@;
    let tag = "chat"@;
    assert(escape_free(e));
    assert(escape_free(t));
    assert(escape_free(pn));
    assert(escape_free(tag));
    crate::json::lemma_escape_free_identity(tag);
    let st0 = crate::json::init_state();
    let lit1 = "{\"event_type\":\"chat\",\"text\":\""@;
    let e1 = json_escape(v.text);
    // The head literal is one brace, the whole tag member, a comma, and the
    // opening of the text member.
    assert(lit1 =~= seq!['{'] + str_member(e, tag) + seq![','] + key_colon(t) + seq!['"']);
    lemma_fold_from_app(st0, seq!['{'] + str_member(e, tag) + seq![','] + key_colon(t), seq!['"']);
    lemma_fold_from_app(st0, seq!['{'] + str_member(e, tag) + seq![','], key_colon(t));
    lemma_fold_from_app(st0, seq!['{'] + str_member(e, tag), seq![',']);
    lemma_fold_from_app(st0, seq!['{'], str_member(e, tag));
    lemma_fold_from_one(st0, '{');
    let st1 = LineState { mode: Mode::BeforeKey, ..st0 };
    assert(json_step(st0, '{') == st1);
    crate::json::lemma_fold_str_member(st1, e, tag);
    let f1 = st0.fields.push((e, JsonV::Str(tag)));
    let st2 = LineState { mode: Mode::AfterVal, key: e, sacc: tag, fields: f1, ..st0 };
    assert(fold_from(st1, str_member(e, tag)) =~= st2);
    lemma_fold_from_one(st2, ',');
    let st3 = LineState { mode: Mode::BeforeKeyComma, ..st2 };
    assert(json_step(st2, ',') == st3);
    crate::json::lemma_member_key(st3, t);
    let st4 = LineState { mode: Mode::BeforeVal, key: t, sacc: t, ..st3 };
    assert(fold_from(st3, key_colon(t)) =~= st4);
    lemma_fold_from_one(st4, '"');
    let st5 = LineState { mode: Mode::InStr, key: t, sacc: Seq::empty(), ..st4 };
    assert(json_step(st4, '"') == st5);
    assert(fold_from(st0, lit1) == st5);
    crate::json::lemma_fold_str_body(st5, v.text);
    assert(Seq::empty() + v.text =~= v.text);
    let st6 = LineState { mode: Mode::InStr, key: t, sacc: v.text, ..st4 };
    assert(fold_from(st5, e1) =~= st6);
    lemma_fold_from_app(st0, lit1, e1);
    let f2 = f1.push((t, JsonV::Str(v.text)));
    match v.player_name {
        Option::Some(p) => {
            let lit2 = "\",\"player_name\":\""@;
            let lit3 = "\"}"@;
            let e2 = json_escape(p);
            let s = chat_json(v);
            assert(s == lit1 + e1 + (lit2 + e2 + lit3));
            lemma_fold_from_app(st0, lit1 + e1, lit2 + e2 + lit3);
            lemma_fold_from_app(st6, lit2 + e2, lit3);
            lemma_fold_from_app(st6, lit2, e2);
            assert(lit2 =~= seq!['"', ','] + key_colon(pn) + seq!['"']);
            lemma_fold_from_app(st6, seq!['"', ','] + key_colon(pn), seq!['"']);
            lemma_fold_from_app(st6, seq!['"', ','], key_colon(pn));
            crate::json::lemma_fold_from_two(st6, '"', ',');
            let st7 = LineState { mode: Mode::BeforeKeyComma, fields: f2, ..st6 };
            assert(json_step(json_step(st6, '"'), ',') == st7);
            crate::json::lemma_member_key(st7, pn);
            let st8 = LineState { mode: Mode::BeforeVal, key: pn, sacc: pn, ..st7 };
            assert(fold_from(st7, key_colon(pn)) =~= st8);
            lemma_fold_from_one(st8, '"');
            let st9 = LineState { mode: Mode::InStr, key: pn, sacc: Seq::empty(), ..st8 };
            assert(json_step(st8, '"') == st9);
            assert(fold_from(st6, lit2) == st9);
            crate::json::lemma_fold_str_body(st9, p);
            assert(Seq::empty() + p =~= p);
            let st10 = LineState { mode: Mode::InStr, key: pn, sacc: p, ..st8 };
            assert(fold_from(st9, e2) =~= st10);
            assert(lit3 =~= seq!['"', '}']);
            crate::json::lemma_fold_from_two(st10, '"', '}');
            let f3 = f2.push((pn, JsonV::Str(p)));
            let st11 = json_step(json_step(st10, '"'), '}');
            assert(st11.mode == Mode::Done);
            assert(st11.fields == f3);
            assert(fold_from(st0, s).mode == Mode::Done);
            assert(fold_from(st0, s).fields == f3);
            crate::json::lemma_fold_line_is_fold_from(s);
            assert(f3 =~= chat_fields(v));
            lemma_chat_round_trip(v);
        },
        Option::None => {
            let lit2 = "\",\"player_name\":null}"@;
            let s = chat_json(v);
            assert(s == lit1 + e1 + lit2);
            lemma_fold_from_app(st0, lit1 + e1, lit2);
            let w = seq!['n', 'u', 'l', 'l', '}'];
            assert(lit2 =~= seq!['"', ','] + key_colon(pn) + w);
            lemma_fold_from_app(st6, seq!['"', ','] + key_colon(pn), w);
            lemma_fold_from_app(st6, seq!['"', ','], key_colon(pn));
            crate::json::lemma_fold_from_two(st6, '"', ',');
            let st7 = LineState { mode: Mode::BeforeKeyComma, fields: f2, ..st6 };
            assert(json_step(json_step(st6, '"'), ',') == st7);
            crate::json::lemma_member_key(st7, pn);
            let st8 = LineState { mode: Mode::BeforeVal, key: pn, sacc: pn, ..st7 };
            assert(fold_from(st7, key_colon(pn)) =~= st8);
            // The word `null`, then the closing brace.
            let st9 = json_step(st8, 'n');
            assert(st9.mode == Mode::InWord && st9.sacc =~= Seq::empty().push('n'));
            let st10 = json_step(st9, 'u');
            let st11 = json_step(st10, 'l');
            let st12 = json_step(st11, 'l');
            assert(st12.mode == Mode::InWord);
            assert(st12.sacc =~= "null"@);
            assert(st12.key == pn && st12.fields == f2);
            let st13 = json_step(st12, '}');
            assert("null"@.len() == 4 && "true"@.len() == 4 && "false"@.len() == 5);
            assert("null"@[0] == 'n' && "true"@[0] == 't');
            assert(st12.sacc != "true"@ && st12.sacc != "false"@);
            let f3 = f2.push((pn, JsonV::Null));
            assert(st13.mode == Mode::Done && st13.fields == f3);
            assert(w[0] == 'n');
            assert(w.drop_first() =~= seq!['u', 'l', 'l', '}']);
            assert(fold_from(st8, w) == fold_from(st9, seq!['u', 'l', 'l', '}']));
            assert(seq!['u', 'l', 'l', '}'].drop_first() =~= seq!['l', 'l', '}']);
            assert(fold_from(st9, seq!['u', 'l', 'l', '}']) == fold_from(st10, seq!['l', 'l', '}']));
            assert(seq!['l', 'l', '}'].drop_first() =~= seq!['l', '}']);
            assert(fold_from(st10, seq!['l', 'l', '}']) == fold_from(st11, seq!['l', '}']));
            assert(seq!['l', '}'].drop_first() =~= seq!['}']);
            assert(fold_from(st11, seq!['l', '}']) == fold_from(st12, seq!['}']));
            crate::json::lemma_fold_from_one(st12, '}');
            assert(fold_from(st8, w) == st13);
            assert(fold_from(st0, s).mode == Mode::Done);
            assert(fold_from(st0, s).fields == f3);
            crate::json::lemma_fold_line_is_fold_from(s);
            assert(f3 =~= chat_fields(v));
            lemma_chat_round_trip(v);
        },
    }
}

/// Round trip for the whole chat family: writing any chat message as JSON
/// and parsing the line back yields an equal message.
pub proof fn lemma_chat_message_round_trip(m: MessageV)
    ensures
        spec_parse_chat(message_json(m)) == Ok::<MessageV, ParseError>(m),
{
    match m {
        MessageV::Chat(c) => lemma_chat_json_parses_back(c),
    }
}

/// A line whose tag is not `"chat"` is rejected by the chat schema: no
/// default event can come out of it.
pub proof fn lemma_chat_rejects_other_tags(fs: Seq<(Seq<char>, JsonV)>)
    ensures
        (match lookup(fs, "event_type"@) {
            Option::Some(JsonV::Str(t)) => t != "chat"@,
            _ => true,
        }) ==> chat_from_fields(fs) is Err,
{
}

} // verus!
