//! The general record family: lines tagged `"player-died"`.

use vstd::prelude::*;

use crate::json::{
    escape_free, fold_from, json_escape, json_step, key_colon, lookup, spec_parse_object,
    str_member, append_escaped, get_field, lemma_fold_from_app, lemma_fold_from_one, parse_object,
    JsonV, JsonValue, LineState, Mode, ParseError,
};

verus! {

/// A player's death.
#[derive(Debug, PartialEq, Eq)]
pub struct PlayerDied {
    pub player_name: String,
}

/// Mathematical model of a [`PlayerDied`].
pub struct PlayerDiedV {
    pub player_name: Seq<char>,
}

impl View for PlayerDied {
    type V = PlayerDiedV;

    open spec fn view(&self) -> PlayerDiedV {
        PlayerDiedV { player_name: self.player_name@ }
    }
}

/// The tagged union of the general family (one variant).
#[derive(Debug, PartialEq, Eq)]
pub enum Message {
    PlayerDied(PlayerDied),
}

/// Mathematical model of a general [`Message`].
pub enum MessageV {
    PlayerDied(PlayerDiedV),
}

impl View for Message {
    type V = MessageV;

    open spec fn view(&self) -> MessageV {
        match self {
            Message::PlayerDied(d) => MessageV::PlayerDied(d@),
        }
    }
}

/// The general event denoted by an object's members: the tag must be
/// `"player-died"` and `player_name` must be a string.  Extra members are
/// ignored.
pub open spec fn general_from_fields(fs: Seq<(Seq<char>, JsonV)>) -> Result<
    PlayerDiedV,
    ParseError,
> {
    match lookup(fs, "event_type"@) {
        Option::Some(JsonV::Str(t)) => {
            if t == "player-died"@ {
                match lookup(fs, "player_name"@) {
                    Option::Some(JsonV::Str(p)) => Ok(PlayerDiedV { player_name: p }),
                    Option::Some(_) => Err(ParseError::WrongType),
                    Option::None => Err(ParseError::MissingField),
                }
            } else {
                Err(ParseError::UnknownTag)
            }
        },
        Option::Some(_) => Err(ParseError::WrongType),
        Option::None => Err(ParseError::MissingField),
    }
}

/// What parsing a line with the general schema yields.
pub open spec fn spec_parse_general(s: Seq<char>) -> Result<MessageV, ParseError> {
    match spec_parse_object(s) {
        Ok(fs) => match general_from_fields(fs) {
            Ok(d) => Ok(MessageV::PlayerDied(d)),
            Err(e) => Err(e),
        },
        Err(e) => Err(e),
    }
}

/// The display text of a death notice.
pub open spec fn died_display(v: PlayerDiedV) -> Seq<char> {
    v.player_name + "が登遐されました。"@
}

/// The display text of a general-family message.
pub open spec fn message_display(v: MessageV) -> Seq<char> {
    match v {
        MessageV::PlayerDied(d) => died_display(d),
    }
}

/// The JSON line that denotes a death notice.
pub open spec fn died_json(v: PlayerDiedV) -> Seq<char> {
    "{\"event_type\":\"player-died\",\"player_name\":\""@ + json_escape(v.player_name) + "\"}"@
}

/// The JSON line that denotes a general-family message.
pub open spec fn message_json(v: MessageV) -> Seq<char> {
    match v {
        MessageV::PlayerDied(d) => died_json(d),
    }
}

impl Message {
    /// Parse one line with the general schema.
    pub fn parse(line: &str) -> (r: Result<Message, ParseError>)
        ensures
            match r {
                Ok(m) => spec_parse_general(line@) == Ok::<MessageV, ParseError>(m@),
                Err(e) => spec_parse_general(line@) == Err::<MessageV, ParseError>(e),
            },
    {
        let fields = match parse_object(line) {
            Ok(f) => f,
            Err(e) => {
                return Err(e);
            },
        };
        match get_field(&fields, "event_type") {
            Some(JsonValue::Str(t)) => {
                if !(*t == String::from_str("player-died")) {
                    return Err(ParseError::UnknownTag);
                }
            },
            Some(_) => {
                return Err(ParseError::WrongType);
            },
            None => {
                return Err(ParseError::MissingField);
            },
        }
        let player_name = match get_field(&fields, "player_name") {
            Some(JsonValue::Str(p)) => p.clone(),
            Some(_) => {
                return Err(ParseError::WrongType);
            },
            None => {
                return Err(ParseError::MissingField);
            },
        };
        Ok(Message::PlayerDied(PlayerDied { player_name }))
    }

    /// The JSON line for this message, as the schema writes it.
    pub fn to_json(&self) -> (r: String)
        ensures
            r@ == message_json(self@),
    {
        match self {
            Message::PlayerDied(d) => d.to_json(),
        }
    }

    /// The display text for this message.
    pub fn to_display(&self) -> (r: String)
        ensures
            r@ == message_display(self@),
    {
        match self {
            Message::PlayerDied(d) => d.to_display(),
        }
    }
}

impl PlayerDied {
    /// The JSON line for this event.
    pub fn to_json(&self) -> (r: String)
        ensures
            r@ == died_json(self@),
    {
        let mut out = String::from_str("{\"event_type\":\"player-died\",\"player_name\":\"");
        append_escaped(&mut out, self.player_name.as_str());
        out.append("\"}");
        out
    }

    /// The display text of this event.
    pub fn to_display(&self) -> (r: String)
        ensures
            r@ == died_display(self@),
    {
        let mut out = self.player_name.clone();
        out.append("が登遐されました。");
        out
    }
}

/// The members that [`PlayerDied::to_json`] writes, in order.
pub open spec fn died_fields(v: PlayerDiedV) -> Seq<(Seq<char>, JsonV)> {
    seq![("event_type"@, JsonV::Str("player-died"@)), ("player_name"@, JsonV::Str(v.player_name))]
}

/// Schema symmetry for the general family: reading back the members that the
/// schema writes for an event yields that event again.
pub proof fn lemma_general_round_trip(v: PlayerDiedV)
    ensures
        general_from_fields(died_fields(v)) == Ok::<PlayerDiedV, ParseError>(v),
{
    reveal_strlit("event_type");
    reveal_strlit("player_name");
    reveal_strlit("player-died");
    let fs = died_fields(v);
    assert("event_type"@.len() == 10);
    assert("player_name"@.len() == 11);
    assert(fs.drop_first() =~= seq![("player_name"@, JsonV::Str(v.player_name))]);
    assert(lookup(fs, "event_type"@) == Some(JsonV::Str("player-died"@)));
    assert(lookup(fs.drop_first(), "player_name"@) == Some(JsonV::Str(v.player_name)));
    assert(lookup(fs, "player_name"@) == Some(JsonV::Str(v.player_name)));
}

/// Full round trip for the general family: the JSON line written for any
/// death notice parses back, with the general schema, to that same event.
pub proof fn lemma_general_json_parses_back(v: PlayerDiedV)
    ensures
        spec_parse_general(died_json(v)) == Ok::<MessageV, ParseError>(MessageV::PlayerDied(v)),
{
    reveal_strlit("{\"event_type\":\"player-died\",\"player_name\":\"");
    reveal_strlit("\"}");
    reveal_strlit("event_type");
    reveal_strlit("player_name");
    reveal_strlit("player-died");
    let e = "event_type"@;
    let pn = "player_name"@;
    let tag = "player-died"@;
    assert(escape_free(e));
    assert(escape_free(pn));
    assert(escape_free(tag));
    crate::json::lemma_escape_free_identity(tag);
    let st0 = crate::json::init_state();
    let lit1 = "{\"event_type\":\"player-died\",\"player_name\":\""@;
    let lit3 = "\"}"@;
    let e1 = json_escape(v.player_name);
    let s = died_json(v);
    assert(s == lit1 + e1 + lit3);
    assert(lit1 =~= seq!['{'] + str_member(e, tag) + seq![','] + key_colon(pn) + seq!['"']);
    lemma_fold_from_app(st0, seq!['{'] + str_member(e, tag) + seq![','] + key_colon(pn), seq!['"']);
    lemma_fold_from_app(st0, seq!['{'] + str_member(e, tag) + seq![','], key_colon(pn));
    lemma_fold_from_app(st0, seq!['{'] + str_member(e, tag), seq![',']);
    lemma_fold_from_app(st0, seq!['{'], str_member(e, tag));
    lemma_fold_from_one(st0, '{');
    let st1 = LineState { mode: Mode::BeforeKey, ..st0 };
    assert(json_step(st0, '{') == st1);
    crate::json::lemma_fold_str_member(st1, e, tag);
    let f1 = st0.fields.push((e, JsonV::Str(tag)));
    let st2 = LineState { mode: Mode::AfterVal, key: e, sacc: tag, fields: f1, ..st0 };
    assert(fold_from(st1, str_member(e, tag)) =~= st2);
    lemma_fold_from_one(st2, ',');
    let st3 = LineState { mode: Mode::BeforeKeyComma, ..st2 };
    assert(json_step(st2, ',') == st3);
    crate::json::lemma_member_key(st3, pn);
    let st4 = LineState { mode: Mode::BeforeVal, key: pn, sacc: pn, ..st3 };
    assert(fold_from(st3, key_colon(pn)) =~= st4);
    lemma_fold_from_one(st4, '"');
    let st5 = LineState { mode: Mode::InStr, key: pn, sacc: Seq::empty(), ..st4 };
    assert(json_step(st4, '"') == st5);
    assert(fold_from(st0, lit1) == st5);
    crate::json::lemma_fold_str_body(st5, v.player_name);
    assert(Seq::empty() + v.player_name =~= v.player_name);
    let st6 = LineState { mode: Mode::InStr, key: pn, sacc: v.player_name, ..st4 };
    assert(fold_from(st5, e1) =~= st6);
    lemma_fold_from_app(st0, lit1 + e1, lit3);
    lemma_fold_from_app(st0, lit1, e1);
    assert(lit3 =~= seq!['"', '}']);
    crate::json::lemma_fold_from_two(st6, '"', '}');
    let f2 = f1.push((pn, JsonV::Str(v.player_name)));
    let st7 = json_step(json_step(st6, '"'), '}');
    assert(st7.mode == Mode::Done && st7.fields == f2);
    assert(fold_from(st0, s).mode == Mode::Done);
    assert(fold_from(st0, s).fields == f2);
    crate::json::lemma_fold_line_is_fold_from(s);
    assert(f2 =~= died_fields(v));
    lemma_general_round_trip(v);
}

/// Round trip for the whole general family: writing any general message as
/// JSON and parsing the line back yields an equal message.
pub proof fn lemma_general_message_round_trip(m: MessageV)
    ensures
        spec_parse_general(message_json(m)) == Ok::<MessageV, ParseError>(m),
{
    match m {
        MessageV::PlayerDied(d) => lemma_general_json_parses_back(d),
    }
}

/// A line whose tag is not `"player-died"` is rejected by the general
/// schema: no default event can come out of it.
pub proof fn lemma_general_rejects_other_tags(fs: Seq<(Seq<char>, JsonV)>)
    ensures
        (match lookup(fs, "event_type"@) {
            Option::Some(JsonV::Str(t)) => t != "player-died"@,
            _ => true,
        }) ==> general_from_fields(fs) is Err,
{
}

} // verus!
