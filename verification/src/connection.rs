//! The connection record family: lines tagged `"player-joined-game"` or
//! `"player-left-game"`.

use vstd::prelude::*;

use crate::json::{
    escape_free, fold_from, json_escape, json_step, key_colon, lookup, spec_parse_object,
    str_member, append_escaped, get_field, lemma_fold_from_app, lemma_fold_from_one, parse_object,
    JsonV, JsonValue, LineState, Mode, ParseError,
};

verus! {

/// Why a player left, as the wire encodes it: an integer 0 to 10, with any
/// other integer standing for `Unknown`.
#[derive(Clone, Copy, Debug, PartialEq, Eq, Structural)]
pub enum Reason {
    Quit,
    Dropped,
    Reconnect,
    WrongInput,
    DesyncLimitReached,
    CannotKeepUp,
    Afk,
    Kicked,
    KickedAndDeleted,
    Banned,
    SwitchingServers,
    Unknown,
}

/// The reason named by a wire code; every integer outside 0 to 10 falls back
/// to `Unknown`, so decoding a reason never fails.
pub open spec fn reason_of_code(c: int) -> Reason {
    if c == 0 {
        Reason::Quit
    } else if c == 1 {
        Reason::Dropped
    } else if c == 2 {
        Reason::Reconnect
    } else if c == 3 {
        Reason::WrongInput
    } else if c == 4 {
        Reason::DesyncLimitReached
    } else if c == 5 {
        Reason::CannotKeepUp
    } else if c == 6 {
        Reason::Afk
    } else if c == 7 {
        Reason::Kicked
    } else if c == 8 {
        Reason::KickedAndDeleted
    } else if c == 9 {
        Reason::Banned
    } else if c == 10 {
        Reason::SwitchingServers
    } else {
        Reason::Unknown
    }
}

/// The wire code of a reason; `Unknown` is written as the first code that
/// names no reason.
pub open spec fn code_of_reason(r: Reason) -> int {
    match r {
        Reason::Quit => 0,
        Reason::Dropped => 1,
        Reason::Reconnect => 2,
        Reason::WrongInput => 3,
        Reason::DesyncLimitReached => 4,
        Reason::CannotKeepUp => 5,
        Reason::Afk => 6,
        Reason::Kicked => 7,
        Reason::KickedAndDeleted => 8,
        Reason::Banned => 9,
        Reason::SwitchingServers => 10,
        Reason::Unknown => 11,
    }
}

/// The decimal spelling of a reason's wire code.
pub open spec fn reason_code_str(r: Reason) -> Seq<char> {
    match r {
        Reason::Quit => "0"@,
        Reason::Dropped => "1"@,
        Reason::Reconnect => "2"@,
        Reason::WrongInput => "3"@,
        Reason::DesyncLimitReached => "4"@,
        Reason::CannotKeepUp => "5"@,
        Reason::Afk => "6"@,
        Reason::Kicked => "7"@,
        Reason::KickedAndDeleted => "8"@,
        Reason::Banned => "9"@,
        Reason::SwitchingServers => "10"@,
        Reason::Unknown => "11"@,
    }
}

/// The parenthetical label shown after a leave notice; empty for `Quit`.
pub open spec fn reason_label(r: Reason) -> Seq<char> {
    match r {
        Reason::Quit => ""@,
        Reason::Dropped => "(ドロップ)"@,
        Reason::Reconnect => "(再接続)"@,
        Reason::WrongInput => "(不正な入力)"@,
        Reason::DesyncLimitReached => "(同期タイムアウト)"@,
        Reason::CannotKeepUp => "(同期継続失敗)"@,
        Reason::Afk => "(AFK)"@,
        Reason::Kicked => "(キック）"@,
        Reason::KickedAndDeleted => "(キック&削除)"@,
        Reason::Banned => "(バン)"@,
        Reason::SwitchingServers => "(サーバの切替)"@,
        Reason::Unknown => "(不明)"@,
    }
}

impl Reason {
    /// Decode a wire code.  Total: out-of-range codes give `Unknown`.
    pub fn from_code(c: i64) -> (r: Reason)
        ensures
            r == reason_of_code(c as int),
    {
        if c == 0 {
            Reason::Quit
        } else if c == 1 {
            Reason::Dropped
        } else if c == 2 {
            Reason::Reconnect
        } else if c == 3 {
            Reason::WrongInput
        } else if c == 4 {
            Reason::DesyncLimitReached
        } else if c == 5 {
            Reason::CannotKeepUp
        } else if c == 6 {
            Reason::Afk
        } else if c == 7 {
            Reason::Kicked
        } else if c == 8 {
            Reason::KickedAndDeleted
        } else if c == 9 {
            Reason::Banned
        } else if c == 10 {
            Reason::SwitchingServers
        } else {
            Reason::Unknown
        }
    }

    /// The decimal spelling of this reason's wire code.
    pub fn code_str(&self) -> (r: &'static str)
        ensures
            r@ == reason_code_str(*self),
    {
        match self {
            Reason::Quit => "0",
            Reason::Dropped => "1",
            Reason::Reconnect => "2",
            Reason::WrongInput => "3",
            Reason::DesyncLimitReached => "4",
            Reason::CannotKeepUp => "5",
            Reason::Afk => "6",
            Reason::Kicked => "7",
            Reason::KickedAndDeleted => "8",
            Reason::Banned => "9",
            Reason::SwitchingServers => "10",
            Reason::Unknown => "11",
        }
    }

    /// The parenthetical label shown after a leave notice.
    pub fn label(&self) -> (r: &'static str)
        ensures
            r@ == reason_label(*self),
    {
        match self {
            Reason::Quit => "",
            Reason::Dropped => "(ドロップ)",
            Reason::Reconnect => "(再接続)",
            Reason::WrongInput => "(不正な入力)",
            Reason::DesyncLimitReached => "(同期タイムアウト)",
            Reason::CannotKeepUp => "(同期継続失敗)",
            Reason::Afk => "(AFK)",
            Reason::Kicked => "(キック）",
            Reason::KickedAndDeleted => "(キック&削除)",
            Reason::Banned => "(バン)",
            Reason::SwitchingServers => "(サーバの切替)",
            Reason::Unknown => "(不明)",
        }
    }
}

/// A player joining the game.
#[derive(Debug, PartialEq, Eq)]
pub struct Join {
    pub player_name: String,
}

/// Mathematical model of a [`Join`].
pub struct JoinV {
    pub player_name: Seq<char>,
}

impl View for Join {
    type V = JoinV;

    open spec fn view(&self) -> JoinV {
        JoinV { player_name: self.player_name@ }
    }
}

/// A player leaving the game, with the reason.
#[derive(Debug, PartialEq, Eq)]
pub struct Left {
    pub player_name: String,
    pub reason: Reason,
}

/// Mathematical model of a [`Left`].
pub struct LeftV {
    pub player_name: Seq<char>,
    pub reason: Reason,
}

impl View for Left {
    type V = LeftV;

    open spec fn view(&self) -> LeftV {
        LeftV { player_name: self.player_name@, reason: self.reason }
    }
}

/// The tagged union of the connection family.
#[derive(Debug, PartialEq, Eq)]
pub enum Message {
    Join(Join),
    Left(Left),
}

/// Mathematical model of a connection [`Message`].
pub enum MessageV {
    Join(JoinV),
    Left(LeftV),
}

impl View for Message {
    type V = MessageV;

    open spec fn view(&self) -> MessageV {
        match self {
            Message::Join(j) => MessageV::Join(j@),
            Message::Left(l) => MessageV::Left(l@),
        }
    }
}

/// The connection event denoted by an object's members.  The tag picks the
/// variant; `player_name` must be a string; a leave notice also needs an
/// integer `reason`.  Extra members are ignored.
pub open spec fn connection_from_fields(fs: Seq<(Seq<char>, JsonV)>) -> Result<
    MessageV,
    ParseError,
> {
    match lookup(fs, "event_type"@) {
        Option::Some(JsonV::Str(t)) => {
            if t == "player-joined-game"@ {
                match lookup(fs, "player_name"@) {
                    Option::Some(JsonV::Str(p)) => Ok(MessageV::Join(JoinV { player_name: p })),
                    Option::Some(_) => Err(ParseError::WrongType),
                    Option::None => Err(ParseError::MissingField),
                }
            } else if t == "player-left-game"@ {
                match lookup(fs, "player_name"@) {
                    Option::Some(JsonV::Str(p)) => {
                        match lookup(fs, "reason"@) {
                            Option::Some(JsonV::Int(c)) => Ok(
                                MessageV::Left(
                                    LeftV { player_name: p, reason: reason_of_code(c) },
                                ),
                            ),
                            Option::Some(_) => Err(ParseError::WrongType),
                            Option::None => Err(ParseError::MissingField),
                        }
                    },
                    Option::Some(_) => Err(ParseError::WrongType),
                    Option::None => Err(ParseError::MissingField),
                }
            } else {
                Err(ParseError::UnknownTag)
            }
        },
        Option::Some(_) => Err(ParseError::WrongType),
        Option::None => Err(ParseError::MissingField),
    }
}

/// What parsing a line with the connection schema yields.
pub open spec fn spec_parse_connection(s: Seq<char>) -> Result<MessageV, ParseError> {
    match spec_parse_object(s) {
        Ok(fs) => connection_from_fields(fs),
        Err(e) => Err(e),
    }
}

/// The display text of a join notice.
pub open spec fn join_display(v: JoinV) -> Seq<char> {
    v.player_name + "が出勤しました。"@
}

/// The display text of a leave notice: the reason's label follows, which for
/// `Quit` is empty.
pub open spec fn left_display(v: LeftV) -> Seq<char> {
    v.player_name + "が退勤しました。"@ + reason_label(v.reason)
}

/// The display text of a connection-family message.
pub open spec fn message_display(v: MessageV) -> Seq<char> {
    match v {
        MessageV::Join(j) => join_display(j),
        MessageV::Left(l) => left_display(l),
    }
}

/// The JSON line that denotes a join notice.
pub open spec fn join_json(v: JoinV) -> Seq<char> {
    "{\"event_type\":\"player-joined-game\",\"player_name\":\""@ + json_escape(v.player_name)
        + "\"}"@
}

/// The JSON line that denotes a leave notice.
pub open spec fn left_json(v: LeftV) -> Seq<char> {
    "{\"event_type\":\"player-left-game\",\"player_name\":\""@ + json_escape(v.player_name)
        + "\",\"reason\":"@ + reason_code_str(v.reason) + "}"@
}

/// The JSON line that denotes a connection-family message.
pub open spec fn message_json(v: MessageV) -> Seq<char> {
    match v {
        MessageV::Join(j) => join_json(j),
        MessageV::Left(l) => left_json(l),
    }
}

impl Message {
    /// Parse one line with the connection schema.
    pub fn parse(line: &str) -> (r: Result<Message, ParseError>)
        ensures
            match r {
                Ok(m) => spec_parse_connection(line@) == Ok::<MessageV, ParseError>(m@),
                Err(e) => spec_parse_connection(line@) == Err::<MessageV, ParseError>(e),
            },
    {
        let fields = match parse_object(line) {
            Ok(f) => f,
            Err(e) => {
                return Err(e);
            },
        };
        let is_join = match get_field(&fields, "event_type") {
            Some(JsonValue::Str(t)) => {
                if *t == String::from_str("player-joined-game") {
                    true
                } else if *t == String::from_str("player-left-game") {
                    false
                } else {
                    return Err(ParseError::UnknownTag);
                }
            },
            Some(_) => {
                return Err(ParseError::WrongType);
            },
            None => {
                return Err(ParseError::MissingField);
            },
        };
        let player_name = match get_field(&fields, "player_name") {
            Some(JsonValue::Str(p)) => p.clone(),
            Some(_) => {
                return Err(ParseError::WrongType);
            },
            None => {
                return Err(ParseError::MissingField);
            },
        };
        if is_join {
            Ok(Message::Join(Join { player_name }))
        } else {
            let reason = match get_field(&fields, "reason") {
                Some(JsonValue::Int(c)) => Reason::from_code(*c),
                Some(_) => {
                    return Err(ParseError::WrongType);
                },
                None => {
                    return Err(ParseError::MissingField);
                },
            };
            Ok(Message::Left(Left { player_name, reason }))
        }
    }

    /// The JSON line for this message, as the schema writes it.
    pub fn to_json(&self) -> (r: String)
        ensures
            r@ == message_json(self@),
    {
        match self {
            Message::Join(j) => j.to_json(),
            Message::Left(l) => l.to_json(),
        }
    }

    /// The display text for this message.
    pub fn to_display(&self) -> (r: String)
        ensures
            r@ == message_display(self@),
    {
        match self {
            Message::Join(j) => j.to_display(),
            Message::Left(l) => l.to_display(),
        }
    }
}

impl Join {
    /// The JSON line for this event.
    pub fn to_json(&self) -> (r: String)
        ensures
            r@ == join_json(self@),
    {
        let mut out = String::from_str("{\"event_type\":\"player-joined-game\",\"player_name\":\"");
        append_escaped(&mut out, self.player_name.as_str());
        out.append("\"}");
        out
    }

    /// The display text of this event.
    pub fn to_display(&self) -> (r: String)
        ensures
            r@ == join_display(self@),
    {
        let mut out = self.player_name.clone();
        out.append("が出勤しました。");
        out
    }
}

impl Left {
    /// The JSON line for this event.
    pub fn to_json(&self) -> (r: String)
        ensures
            r@ == left_json(self@),
    {
        let mut out = String::from_str("{\"event_type\":\"player-left-game\",\"player_name\":\"");
        append_escaped(&mut out, self.player_name.as_str());
        out.append("\",\"reason\":");
        out.append(self.reason.code_str());
        out.append("}");
        out
    }

    /// The display text of this event.
    pub fn to_display(&self) -> (r: String)
        ensures
            r@ == left_display(self@),
    {
        let mut out = self.player_name.clone();
        out.append("が退勤しました。");
        out.append(self.reason.label());
        out
    }
}

/// Decoding a reason code never fails: every integer yields a reason, and
/// the fallback `Unknown` comes exactly from the integers outside 0 to 10.
pub proof fn lemma_reason_fallback(c: int)
    ensures
        (reason_of_code(c) == Reason::Unknown) <==> !(0 <= c && c <= 10),
{
}

/// Encoding a reason and decoding the code gives the reason back.
pub proof fn lemma_reason_code_round_trip(r: Reason)
    ensures
        reason_of_code(code_of_reason(r)) == r,
{
}

/// A leave notice for `Quit` carries no suffix; every other reason appends a
/// non-empty parenthetical label.
pub proof fn lemma_reason_label_shape(r: Reason)
    ensures
        reason_label(Reason::Quit) == Seq::<char>::empty(),
        r != Reason::Quit ==> reason_label(r).len() > 0 && reason_label(r)[0] == '(',
{
    reveal_strlit("");
    reveal_strlit("(ドロップ)");
    reveal_strlit("(再接続)");
    reveal_strlit("(不正な入力)");
    reveal_strlit("(同期タイムアウト)");
    reveal_strlit("(同期継続失敗)");
    reveal_strlit("(AFK)");
    reveal_strlit("(キック）");
    reveal_strlit("(キック&削除)");
    reveal_strlit("(バン)");
    reveal_strlit("(サーバの切替)");
    reveal_strlit("(不明)");
}

/// Different reasons never share a label.
pub proof fn lemma_reason_labels_distinct(r1: Reason, r2: Reason)
    ensures
        r1 != r2 ==> reason_label(r1) != reason_label(r2),
{
    reveal_strlit("");
    reveal_strlit("(ドロップ)");
    reveal_strlit("(再接続)");
    reveal_strlit("(不正な入力)");
    reveal_strlit("(同期タイムアウト)");
    reveal_strlit("(同期継続失敗)");
    reveal_strlit("(AFK)");
    reveal_strlit("(キック）");
    reveal_strlit("(キック&削除)");
    reveal_strlit("(バン)");
    reveal_strlit("(サーバの切替)");
    reveal_strlit("(不明)");
    assert(reason_label(Reason::Quit).len() == 0);
    assert(reason_label(Reason::Dropped).len() == 6);
    assert(reason_label(Reason::Reconnect).len() == 5);
    assert(reason_label(Reason::WrongInput).len() == 7);
    assert(reason_label(Reason::DesyncLimitReached).len() == 10);
    assert(reason_label(Reason::CannotKeepUp).len() == 8);
    assert(reason_label(Reason::Afk).len() == 5);
    assert(reason_label(Reason::Kicked).len() == 5);
    assert(reason_label(Reason::KickedAndDeleted).len() == 8);
    assert(reason_label(Reason::Banned).len() == 4);
    assert(reason_label(Reason::SwitchingServers).len() == 8);
    assert(reason_label(Reason::Unknown).len() == 4);
    assert(reason_label(Reason::Dropped)[1] == 'ド');
    assert(reason_label(Reason::Reconnect)[1] == '再');
    assert(reason_label(Reason::WrongInput)[1] == '不');
    assert(reason_label(Reason::DesyncLimitReached)[1] == '同');
    assert(reason_label(Reason::CannotKeepUp)[1] == '同');
    assert(reason_label(Reason::CannotKeepUp)[3] == '継');
    assert(reason_label(Reason::DesyncLimitReached)[3] == 'タ');
    assert(reason_label(Reason::Afk)[1] == 'A');
    assert(reason_label(Reason::Kicked)[1] == 'キ');
    assert(reason_label(Reason::KickedAndDeleted)[1] == 'キ');
    assert(reason_label(Reason::Banned)[1] == 'バ');
    assert(reason_label(Reason::SwitchingServers)[1] == 'サ');
    assert(reason_label(Reason::Unknown)[1] == '不');
}

/// The members that [`Join::to_json`] writes, in order.
pub open spec fn join_fields(v: JoinV) -> Seq<(Seq<char>, JsonV)> {
    seq![
        ("event_type"@, JsonV::Str("player-joined-game"@)),
        ("player_name"@, JsonV::Str(v.player_name)),
    ]
}

/// The members that [`Left::to_json`] writes, in order.
pub open spec fn left_fields(v: LeftV) -> Seq<(Seq<char>, JsonV)> {
    seq![
        ("event_type"@, JsonV::Str("player-left-game"@)),
        ("player_name"@, JsonV::Str(v.player_name)),
        ("reason"@, JsonV::Int(code_of_reason(v.reason))),
    ]
}

/// Schema symmetry for a join notice: reading back the members that the
/// schema writes yields the same event.
pub proof fn lemma_join_round_trip(v: JoinV)
    ensures
        connection_from_fields(join_fields(v)) == Ok::<MessageV, ParseError>(MessageV::Join(v)),
{
    reveal_strlit("event_type");
    reveal_strlit("player_name");
    reveal_strlit("player-joined-game");
    reveal_strlit("player-left-game");
    let fs = join_fields(v);
    assert("event_type"@.len() == 10);
    assert("player_name"@.len() == 11);
    assert("player-joined-game"@.len() == 18);
    assert("player-left-game"@.len() == 16);
    assert(fs.drop_first() =~= seq![("player_name"@, JsonV::Str(v.player_name))]);
    assert(lookup(fs, "event_type"@) == Some(JsonV::Str("player-joined-game"@)));
    assert(lookup(fs.drop_first(), "player_name"@) == Some(JsonV::Str(v.player_name)));
    assert(lookup(fs, "player_name"@) == Some(JsonV::Str(v.player_name)));
}

/// Schema symmetry for a leave notice: reading back the members that the
/// schema writes yields the same event, for every reason including `Unknown`.
pub proof fn lemma_left_round_trip(v: LeftV)
    ensures
        connection_from_fields(left_fields(v)) == Ok::<MessageV, ParseError>(MessageV::Left(v)),
{
    reveal_strlit("event_type");
    reveal_strlit("player_name");
    reveal_strlit("reason");
    reveal_strlit("player-joined-game");
    reveal_strlit("player-left-game");
    let fs = left_fields(v);
    assert("event_type"@.len() == 10);
    assert("player_name"@.len() == 11);
    assert("reason"@.len() == 6);
    assert("player-joined-game"@.len() == 18);
    assert("player-left-game"@.len() == 16);
    let reason_pair = ("reason"@, JsonV::Int(code_of_reason(v.reason)));
    assert(fs.drop_first() =~= seq![("player_name"@, JsonV::Str(v.player_name)), reason_pair]);
    assert(fs.drop_first().drop_first() =~= seq![reason_pair]);
    assert(lookup(fs, "event_type"@) == Some(JsonV::Str("player-left-game"@)));
    assert(lookup(fs.drop_first(), "player_name"@) == Some(JsonV::Str(v.player_name)));
    assert(lookup(fs, "player_name"@) == Some(JsonV::Str(v.player_name)));
    assert(lookup(fs.drop_first().drop_first(), "reason"@) == Some(reason_pair.1));
    assert(lookup(fs.drop_first(), "reason"@) == Some(reason_pair.1));
    assert(lookup(fs, "reason"@) == Some(reason_pair.1));
    lemma_reason_code_round_trip(v.reason);
}

/// Full round trip for a join notice: the JSON line written for it parses
/// back, with the connection schema, to the same event.
pub proof fn lemma_join_json_parses_back(v: JoinV)
    ensures
        spec_parse_connection(join_json(v)) == Ok::<MessageV, ParseError>(MessageV::Join(v)),
{
    reveal_strlit("{\"event_type\":\"player-joined-game\",\"player_name\":\"");
    reveal_strlit("\"}");
    reveal_strlit("event_type");
    reveal_strlit("player_name");
    reveal_strlit("player-joined-game");
    reveal_strlit("player-left-game");
    let e = "event_type"@;
    let pn = "player_name"@;
    let tag = "player-joined-game"@;
    assert(escape_free(e));
    assert(escape_free(pn));
    assert(escape_free(tag));
    crate::json::lemma_escape_free_identity(tag);
    let st0 = crate::json::init_state();
    let lit1 = "{\"event_type\":\"player-joined-game\",\"player_name\":\""@;
    let lit3 = "\"}"@;
    let e1 = json_escape(v.player_name);
    let s = join_json(v);
    assert(s == lit1 + e1 + lit3);
    assert(lit1 =~= seq!['{'] + str_member(e, tag) + seq![','] + key_colon(pn) + seq!['"']);
    lemma_fold_from_app(st0, seq!['{'] + str_member(e, tag) + seq![','] + key_colon(pn), seq!['"']);
    lemma_fold_from_app(st0, seq!['{'] + str_member(e, tag) + seq![','], key_colon(pn));
    lemma_fold_from_app(st0, seq!['{'] + str_member(e, tag), seq![',']);
    lemma_fold_from_app(st0, seq!['{'], str_member(e, tag));
    lemma_fold_from_one(st0, '{');
    let st1 = LineState { mode: Mode::BeforeKey, ..st0 };
    assert(json_step(st0, '{') == st1);
    crate::json::lemma_fold_str_member(st1, e, tag);
    let f1 = st0.fields.push((e, JsonV::Str(tag)));
    let st2 = LineState { mode: Mode::AfterVal, key: e, sacc: tag, fields: f1, ..st0 };
    assert(fold_from(st1, str_member(e, tag)) =~= st2);
    lemma_fold_from_one(st2, ',');
    let st3 = LineState { mode: Mode::BeforeKeyComma, ..st2 };
    assert(json_step(st2, ',') == st3);
    crate::json::lemma_member_key(st3, pn);
    let st4 = LineState { mode: Mode::BeforeVal, key: pn, sacc: pn, ..st3 };
    assert(fold_from(st3, key_colon(pn)) =~= st4);
    lemma_fold_from_one(st4, '"');
    let st5 = LineState { mode: Mode::InStr, key: pn, sacc: Seq::empty(), ..st4 };
    assert(json_step(st4, '"') == st5);
    assert(fold_from(st0, lit1) == st5);
    crate::json::lemma_fold_str_body(st5, v.player_name);
    assert(Seq::empty() + v.player_name =~= v.player_name);
    let st6 = LineState { mode: Mode::InStr, key: pn, sacc: v.player_name, ..st4 };
    assert(fold_from(st5, e1) =~= st6);
    lemma_fold_from_app(st0, lit1 + e1, lit3);
    lemma_fold_from_app(st0, lit1, e1);
    assert(lit3 =~= seq!['"', '}']);
    crate::json::lemma_fold_from_two(st6, '"', '}');
    let f2 = f1.push((pn, JsonV::Str(v.player_name)));
    let st7 = json_step(json_step(st6, '"'), '}');
    assert(st7.mode == Mode::Done && st7.fields == f2);
    assert(fold_from(st0, s).mode == Mode::Done);
    assert(fold_from(st0, s).fields == f2);
    crate::json::lemma_fold_line_is_fold_from(s);
    assert(f2 =~= join_fields(v));
    lemma_join_round_trip(v);
}

proof fn lemma_fold_code(st: LineState, r: Reason)
    requires
        st.mode == Mode::BeforeVal,
    ensures
        ({
            let stn = fold_from(st, reason_code_str(r));
            &&& (stn.mode == Mode::NumZero || stn.mode == Mode::NumInt)
            &&& stn.nneg == false
            &&& stn.nisint == true
            &&& stn.nmag == code_of_reason(r)
            &&& stn.key == st.key
            &&& stn.fields == st.fields
        }),
{
    reveal_strlit("0");
    reveal_strlit("1");
    reveal_strlit("2");
    reveal_strlit("3");
    reveal_strlit("4");
    reveal_strlit("5");
    reveal_strlit("6");
    reveal_strlit("7");
    reveal_strlit("8");
    reveal_strlit("9");
    reveal_strlit("10");
    reveal_strlit("11");
    match r {
        Reason::Quit => {
            assert(reason_code_str(r) =~= seq!['0']);
            lemma_fold_from_one(st, '0');
        },
        Reason::Dropped => {
            assert(reason_code_str(r) =~= seq!['1']);
            lemma_fold_from_one(st, '1');
        },
        Reason::Reconnect => {
            assert(reason_code_str(r) =~= seq!['2']);
            lemma_fold_from_one(st, '2');
        },
        Reason::WrongInput => {
            assert(reason_code_str(r) =~= seq!['3']);
            lemma_fold_from_one(st, '3');
        },
        Reason::DesyncLimitReached => {
            assert(reason_code_str(r) =~= seq!['4']);
            lemma_fold_from_one(st, '4');
        },
        Reason::CannotKeepUp => {
            assert(reason_code_str(r) =~= seq!['5']);
            lemma_fold_from_one(st, '5');
        },
        Reason::Afk => {
            assert(reason_code_str(r) =~= seq!['6']);
            lemma_fold_from_one(st, '6');
        },
        Reason::Kicked => {
            assert(reason_code_str(r) =~= seq!['7']);
            lemma_fold_from_one(st, '7');
        },
        Reason::KickedAndDeleted => {
            assert(reason_code_str(r) =~= seq!['8']);
            lemma_fold_from_one(st, '8');
        },
        Reason::Banned => {
            assert(reason_code_str(r) =~= seq!['9']);
            lemma_fold_from_one(st, '9');
        },
        Reason::SwitchingServers => {
            assert(reason_code_str(r) =~= seq!['1', '0']);
            crate::json::lemma_fold_from_two(st, '1', '0');
        },
        Reason::Unknown => {
            assert(reason_code_str(r) =~= seq!['1', '1']);
            crate::json::lemma_fold_from_two(st, '1', '1');
        },
    }
}

/// Full round trip for a leave notice: the JSON line written for it parses
/// back, with the connection schema, to the same event, whatever the reason.
pub proof fn lemma_left_json_parses_back(v: LeftV)
    ensures
        spec_parse_connection(left_json(v)) == Ok::<MessageV, ParseError>(MessageV::Left(v)),
{
    reveal_strlit("{\"event_type\":\"player-left-game\",\"player_name\":\"");
    reveal_strlit("\",\"reason\":");
    reveal_strlit("}");
    reveal_strlit("event_type");
    reveal_strlit("player_name");
    reveal_strlit("reason");
    reveal_strlit("player-joined-game");
    reveal_strlit("player-left-game");
    let e = "event_type"@;
    let pn = "player_name"@;
    let re = "reason"@;
    let tag = "player-left-game"@;
    assert(escape_free(e));
    assert(escape_free(pn));
    assert(escape_free(re));
    assert(escape_free(tag));
    crate::json::lemma_escape_free_identity(tag);
    let st0 = crate::json::init_state();
    let lit1 = "{\"event_type\":\"player-left-game\",\"player_name\":\""@;
    let lit2 = "\",\"reason\":"@;
    let lit3 = "}"@;
    let e1 = json_escape(v.player_name);
    let code = reason_code_str(v.reason);
    let s = left_json(v);
    assert(s == lit1 + e1 + lit2 + code + lit3);
    assert(lit1 =~= seq!['{'] + str_member(e, tag) + seq![','] + key_colon(pn) + seq!['"']);
    lemma_fold_from_app(st0, seq!['{'] + str_member(e, tag) + seq![','] + key_colon(pn), seq!['"']);
    lemma_fold_from_app(st0, seq!['{'] + str_member(e, tag) + seq![','], key_colon(pn));
    lemma_fold_from_app(st0, seq!['{'] + str_member(e, tag), seq![',']);
    lemma_fold_from_app(st0, seq!['{'], str_member(e, tag));
    lemma_fold_from_one(st0, '{');
    let st1 = LineState { mode: Mode::BeforeKey, ..st0 };
    assert(json_step(st0, '{') == st1);
    crate::json::lemma_fold_str_member(st1, e, tag);
    let f1 = st0.fields.push((e, JsonV::Str(tag)));
    let st2 = LineState { mode: Mode::AfterVal, key: e, sacc: tag, fields: f1, ..st0 };
    assert(fold_from(st1, str_member(e, tag)) =~= st2);
    lemma_fold_from_one(st2, ',');
    let st3 = LineState { mode: Mode::BeforeKeyComma, ..st2 };
    assert(json_step(st2, ',') == st3);
    crate::json::lemma_member_key(st3, pn);
    let st4 = LineState { mode: Mode::BeforeVal, key: pn, sacc: pn, ..st3 };
    assert(fold_from(st3, key_colon(pn)) =~= st4);
    lemma_fold_from_one(st4, '"');
    let st5 = LineState { mode: Mode::InStr, key: pn, sacc: Seq::empty(), ..st4 };
    assert(json_step(st4, '"') == st5);
    assert(fold_from(st0, lit1) == st5);
    crate::json::lemma_fold_str_body(st5, v.player_name);
    assert(Seq::empty() + v.player_name =~= v.player_name);
    let st6 = LineState { mode: Mode::InStr, key: pn, sacc: v.player_name, ..st4 };
    assert(fold_from(st5, e1) =~= st6);
    lemma_fold_from_app(st0, lit1 + e1 + lit2 + code, lit3);
    lemma_fold_from_app(st0, lit1 + e1 + lit2, code);
    lemma_fold_from_app(st0, lit1 + e1, lit2);
    lemma_fold_from_app(st0, lit1, e1);
    assert(lit2 =~= seq!['"', ','] + key_colon(re));
    lemma_fold_from_app(st6, seq!['"', ','], key_colon(re));
    crate::json::lemma_fold_from_two(st6, '"', ',');
    let f2 = f1.push((pn, JsonV::Str(v.player_name)));
    let st7 = LineState { mode: Mode::BeforeKeyComma, fields: f2, ..st6 };
    assert(json_step(json_step(st6, '"'), ',') == st7);
    crate::json::lemma_member_key(st7, re);
    let st8 = LineState { mode: Mode::BeforeVal, key: re, sacc: re, ..st7 };
    assert(fold_from(st7, key_colon(re)) =~= st8);
    assert(fold_from(st0, lit1 + e1 + lit2) == st8);
    lemma_fold_code(st8, v.reason);
    let stn = fold_from(st8, code);
    assert(0 <= code_of_reason(v.reason) && code_of_reason(v.reason) <= 11);
    assert(lit3 =~= seq!['}']);
    lemma_fold_from_one(stn, '}');
    let stf = json_step(stn, '}');
    let f3 = f2.push((re, JsonV::Int(code_of_reason(v.reason))));
    assert(stf.mode == Mode::Done && stf.fields == f3);
    assert(fold_from(st0, s).mode == Mode::Done);
    assert(fold_from(st0, s).fields == f3);
    crate::json::lemma_fold_line_is_fold_from(s);
    assert(f3 =~= left_fields(v));
    lemma_left_round_trip(v);
}

/// Round trip for the whole connection family: writing any connection
/// message as JSON and parsing the line back yields an equal message.
pub proof fn lemma_connection_message_round_trip(m: MessageV)
    ensures
        spec_parse_connection(message_json(m)) == Ok::<MessageV, ParseError>(m),
{
    match m {
        MessageV::Join(j) => lemma_join_json_parses_back(j),
        MessageV::Left(l) => lemma_left_json_parses_back(l),
    }
}

/// A line whose tag names neither connection variant is rejected by the
/// connection schema: no default event can come out of it.
pub proof fn lemma_connection_rejects_other_tags(fs: Seq<(Seq<char>, JsonV)>)
    ensures
        (match lookup(fs, "event_type"@) {
            Option::Some(JsonV::Str(t)) => t != "player-joined-game"@ && t != "player-left-game"@,
            _ => true,
        }) ==> connection_from_fields(fs) is Err,
{
}

} // verus!
