//! A small JSON reader for one-line log records.
//!
//! Each record is a single JSON object whose member values are scalars:
//! strings, integers, other numbers, booleans and `null`.  The grammar is
//! defined once, as the spec-level state machine [`json_step`] folded over the
//! characters of the line; the executable parser is proved to return exactly
//! what that definition says.

use vstd::prelude::*;

verus! {

/// The value of one object member, as the parser reports it.
///
/// Numbers that are integers in the range of `i64` come out as `Int`; any
/// other well-formed number, and the words `true` and `false`, come out as
/// `Other` (well-formed but not used by any schema).
#[derive(Debug)]
pub enum JsonValue {
    Str(String),
    Int(i64),
    Null,
    Other,
}

/// Mathematical model of a [`JsonValue`].
pub enum JsonV {
    Str(Seq<char>),
    Int(int),
    Null,
    Other,
}

impl View for JsonValue {
    type V = JsonV;

    open spec fn view(&self) -> JsonV {
        match self {
            JsonValue::Str(s) => JsonV::Str(s@),
            JsonValue::Int(i) => JsonV::Int(*i as int),
            JsonValue::Null => JsonV::Null,
            JsonValue::Other => JsonV::Other,
        }
    }
}

/// Why a line was rejected.
#[derive(Clone, Copy, Debug, PartialEq, Eq, Structural)]
pub enum ParseError {
    /// The line is not a well-formed JSON object of scalars.
    Syntax,
    /// The `event_type` member is missing or not one of the schema's tags.
    UnknownTag,
    /// A required member is missing.
    MissingField,
    /// A required member is present but has the wrong type.
    WrongType,
}

/// The members of an object, in source order.
pub open spec fn fields_view(v: Seq<(String, JsonValue)>) -> Seq<(Seq<char>, JsonV)> {
    v.map_values(|p: (String, JsonValue)| (p.0@, p.1@))
}

/// The value of the first member named `name`, if any.
pub open spec fn lookup(fields: Seq<(Seq<char>, JsonV)>, name: Seq<char>) -> Option<JsonV>
    decreases fields.len(),
{
    if fields.len() == 0 {
        None
    } else if fields[0].0 == name {
        Some(fields[0].1)
    } else {
        lookup(fields.drop_first(), name)
    }
}

/// Parser position within a line.
#[derive(Clone, Copy, Debug, PartialEq, Eq, Structural)]
pub enum Mode {
    Start,
    BeforeKey,
    BeforeKeyComma,
    InKey,
    InKeyEsc,
    AfterKey,
    BeforeVal,
    InStr,
    InStrEsc,
    NumMinus,
    NumZero,
    NumInt,
    NumDot,
    NumFrac,
    NumE,
    NumESign,
    NumExp,
    InWord,
    AfterVal,
    Done,
    Fail,
}

/// The whole parser state: position, accumulators, and members seen so far.
#[verifier::ext_equal]
pub struct LineState {
    pub mode: Mode,
    /// The key of the member currently being read.
    pub key: Seq<char>,
    /// String/word accumulator (key text, string text, or word letters).
    pub sacc: Seq<char>,
    /// The current number carries a leading minus sign.
    pub nneg: bool,
    /// The current number has no fraction and no exponent.
    pub nisint: bool,
    /// Magnitude of the current number's integer part.
    pub nmag: int,
    pub fields: Seq<(Seq<char>, JsonV)>,
}

pub open spec fn is_ws(c: char) -> bool {
    c == ' ' || c == '\t' || c == '\n' || c == '\r'
}

pub open spec fn is_digit(c: char) -> bool {
    '0' <= c && c <= '9'
}

pub open spec fn digit_val(c: char) -> int {
    c as int - '0' as int
}

/// What a string escape `\c` stands for; `None` for an unsupported escape.
pub open spec fn esc_char_of(c: char) -> Option<char> {
    if c == '"' {
        Some('"')
    } else if c == '\\' {
        Some('\\')
    } else if c == '/' {
        Some('/')
    } else if c == 'b' {
        Some('\u{8}')
    } else if c == 'f' {
        Some('\u{c}')
    } else if c == 'n' {
        Some('\n')
    } else if c == 'r' {
        Some('\r')
    } else if c == 't' {
        Some('\t')
    } else {
        None
    }
}

/// A character that ends a number or word value.
pub open spec fn is_delim(c: char) -> bool {
    c == ',' || c == '}' || is_ws(c)
}

/// The member value a finished number denotes.
pub open spec fn num_jv(nneg: bool, nisint: bool, nmag: int) -> JsonV {
    let v = if nneg {
        -nmag
    } else {
        nmag
    };
    if nisint && -9223372036854775808 <= v && v <= 9223372036854775807 {
        JsonV::Int(v)
    } else {
        JsonV::Other
    }
}

/// The member value a finished word denotes, if the word is one of JSON's.
pub open spec fn word_jv(a: Seq<char>) -> Option<JsonV> {
    if a == "true"@ || a == "false"@ {
        Some(JsonV::Other)
    } else if a == "null"@ {
        Some(JsonV::Null)
    } else {
        None
    }
}

pub open spec fn st_fail(st: LineState) -> LineState {
    LineState { mode: Mode::Fail, ..st }
}

/// Record the finished member and act on the delimiter that ended it.
pub open spec fn end_val(st: LineState, jv: JsonV, c: char) -> LineState {
    let f2 = st.fields.push((st.key, jv));
    if c == ',' {
        LineState { mode: Mode::BeforeKeyComma, fields: f2, ..st }
    } else if c == '}' {
        LineState { mode: Mode::Done, fields: f2, ..st }
    } else {
        LineState { mode: Mode::AfterVal, fields: f2, ..st }
    }
}

/// One step of the line grammar: the state after reading `c` in state `st`.
pub open spec fn json_step(st: LineState, c: char) -> LineState {
    match st.mode {
        Mode::Start => {
            if c == '{' {
                LineState { mode: Mode::BeforeKey, ..st }
            } else if is_ws(c) {
                st
            } else {
                st_fail(st)
            }
        },
        Mode::BeforeKey => {
            if c == '"' {
                LineState { mode: Mode::InKey, sacc: Seq::empty(), ..st }
            } else if c == '}' {
                LineState { mode: Mode::Done, ..st }
            } else if is_ws(c) {
                st
            } else {
                st_fail(st)
            }
        },
        Mode::BeforeKeyComma => {
            if c == '"' {
                LineState { mode: Mode::InKey, sacc: Seq::empty(), ..st }
            } else if is_ws(c) {
                st
            } else {
                st_fail(st)
            }
        },
        Mode::InKey => {
            if c == '"' {
                LineState { mode: Mode::AfterKey, key: st.sacc, ..st }
            } else if c == '\\' {
                LineState { mode: Mode::InKeyEsc, ..st }
            } else {
                LineState { sacc: st.sacc.push(c), ..st }
            }
        },
        Mode::InKeyEsc => {
            match esc_char_of(c) {
                Some(e) => LineState { mode: Mode::InKey, sacc: st.sacc.push(e), ..st },
                None => st_fail(st),
            }
        },
        Mode::AfterKey => {
            if c == ':' {
                LineState { mode: Mode::BeforeVal, ..st }
            } else if is_ws(c) {
                st
            } else {
                st_fail(st)
            }
        },
        Mode::BeforeVal => {
            if c == '"' {
                LineState { mode: Mode::InStr, sacc: Seq::empty(), ..st }
            } else if c == '-' {
                LineState { mode: Mode::NumMinus, nneg: true, nisint: true, nmag: 0, ..st }
            } else if c == '0' {
                LineState { mode: Mode::NumZero, nneg: false, nisint: true, nmag: 0, ..st }
            } else if is_digit(c) {
                LineState {
                    mode: Mode::NumInt,
                    nneg: false,
                    nisint: true,
                    nmag: digit_val(c),
                    ..st
                }
            } else if c == 't' || c == 'f' || c == 'n' {
                LineState { mode: Mode::InWord, sacc: Seq::empty().push(c), ..st }
            } else if is_ws(c) {
                st
            } else {
                st_fail(st)
            }
        },
        Mode::InStr => {
            if c == '"' {
                LineState {
                    mode: Mode::AfterVal,
                    fields: st.fields.push((st.key, JsonV::Str(st.sacc))),
                    ..st
                }
            } else if c == '\\' {
                LineState { mode: Mode::InStrEsc, ..st }
            } else {
                LineState { sacc: st.sacc.push(c), ..st }
            }
        },
        Mode::InStrEsc => {
            match esc_char_of(c) {
                Some(e) => LineState { mode: Mode::InStr, sacc: st.sacc.push(e), ..st },
                None => st_fail(st),
            }
        },
        Mode::NumMinus => {
            if c == '0' {
                LineState { mode: Mode::NumZero, nmag: 0, ..st }
            } else if is_digit(c) {
                LineState { mode: Mode::NumInt, nmag: digit_val(c), ..st }
            } else {
                st_fail(st)
            }
        },
        Mode::NumZero => {
            if c == '.' {
                LineState { mode: Mode::NumDot, nisint: false, ..st }
            } else if c == 'e' || c == 'E' {
                LineState { mode: Mode::NumE, nisint: false, ..st }
            } else if is_delim(c) {
                end_val(st, num_jv(st.nneg, st.nisint, st.nmag), c)
            } else {
                st_fail(st)
            }
        },
        Mode::NumInt => {
            if is_digit(c) {
                LineState { nmag: st.nmag * 10 + digit_val(c), ..st }
            } else if c == '.' {
                LineState { mode: Mode::NumDot, nisint: false, ..st }
            } else if c == 'e' || c == 'E' {
                LineState { mode: Mode::NumE, nisint: false, ..st }
            } else if is_delim(c) {
                end_val(st, num_jv(st.nneg, st.nisint, st.nmag), c)
            } else {
                st_fail(st)
            }
        },
        Mode::NumDot => {
            if is_digit(c) {
                LineState { mode: Mode::NumFrac, ..st }
            } else {
                st_fail(st)
            }
        },
        Mode::NumFrac => {
            if is_digit(c) {
                st
            } else if c == 'e' || c == 'E' {
                LineState { mode: Mode::NumE, ..st }
            } else if is_delim(c) {
                end_val(st, num_jv(st.nneg, st.nisint, st.nmag), c)
            } else {
                st_fail(st)
            }
        },
        Mode::NumE => {
            if is_digit(c) {
                LineState { mode: Mode::NumExp, ..st }
            } else if c == '+' || c == '-' {
                LineState { mode: Mode::NumESign, ..st }
            } else {
                st_fail(st)
            }
        },
        Mode::NumESign => {
            if is_digit(c) {
                LineState { mode: Mode::NumExp, ..st }
            } else {
                st_fail(st)
            }
        },
        Mode::NumExp => {
            if is_digit(c) {
                st
            } else if is_delim(c) {
                end_val(st, num_jv(st.nneg, st.nisint, st.nmag), c)
            } else {
                st_fail(st)
            }
        },
        Mode::InWord => {
            if 'a' <= c && c <= 'z' {
                LineState { sacc: st.sacc.push(c), ..st }
            } else if is_delim(c) {
                match word_jv(st.sacc) {
                    Some(jv) => end_val(st, jv, c),
                    None => st_fail(st),
                }
            } else {
                st_fail(st)
            }
        },
        Mode::AfterVal => {
            if c == ',' {
                LineState { mode: Mode::BeforeKeyComma, ..st }
            } else if c == '}' {
                LineState { mode: Mode::Done, ..st }
            } else if is_ws(c) {
                st
            } else {
                st_fail(st)
            }
        },
        Mode::Done => {
            if is_ws(c) {
                st
            } else {
                st_fail(st)
            }
        },
        Mode::Fail => st,
    }
}

/// The state before any character has been read.
pub open spec fn init_state() -> LineState {
    LineState {
        mode: Mode::Start,
        key: Seq::empty(),
        sacc: Seq::empty(),
        nneg: false,
        nisint: false,
        nmag: 0,
        fields: Seq::empty(),
    }
}

/// The parser state after reading all of `s`.
pub open spec fn fold_line(s: Seq<char>) -> LineState
    decreases s.len(),
{
    if s.len() == 0 {
        init_state()
    } else {
        json_step(fold_line(s.drop_last()), s.last())
    }
}

/// What a line means: its members in source order, or a syntax error.
///
/// This is the reference for the executable parser: a line is well formed
/// exactly when the state machine ends in `Done`.
pub open spec fn spec_parse_object(s: Seq<char>) -> Result<Seq<(Seq<char>, JsonV)>, ParseError> {
    let st = fold_line(s);
    if st.mode == Mode::Done {
        Ok(st.fields)
    } else {
        Err(ParseError::Syntax)
    }
}

/// The first member named `name`, executably.
pub fn get_field<'a>(fields: &'a Vec<(String, JsonValue)>, name: &str) -> (r: Option<
    &'a JsonValue,
>)
    ensures
        match r {
            Some(v) => lookup(fields_view(fields@), name@) == Some(v@),
            None => lookup(fields_view(fields@), name@) is None,
        },
{
    let ns = String::from_str(name);
    let n = fields.len();
    let mut j: usize = 0;
    proof {
        assert(fields_view(fields@).skip(0) =~= fields_view(fields@));
    }
    while j < n
        invariant
            n == fields@.len(),
            j <= n,
            ns@ == name@,
            lookup(fields_view(fields@), name@) == lookup(
                fields_view(fields@).skip(j as int),
                name@,
            ),
        decreases n - j,
    {
        proof {
            assert(fields_view(fields@).skip(j as int).drop_first() =~= fields_view(
                fields@,
            ).skip(j as int + 1));
            assert(fields_view(fields@)[j as int] == (fields@[j as int].0@, fields@[j as int].1@));
            assert(fields_view(fields@).skip(j as int)[0] == fields_view(fields@)[j as int]);
        }
        if fields[j].0 == ns {
            return Some(&fields[j].1);
        }
        j = j + 1;
    }
    proof {
        assert(fields_view(fields@).skip(n as int) =~= Seq::empty());
    }
    None
}

/// How one character is written inside a JSON string.
pub open spec fn esc_seq(c: char) -> Seq<char> {
    if c == '"' {
        seq!['\\', '"']
    } else if c == '\\' {
        seq!['\\', '\\']
    } else {
        seq![c]
    }
}

/// The body of a JSON string that denotes `s`: quotes and backslashes are
/// escaped, every other character stands for itself.
pub open spec fn json_escape(s: Seq<char>) -> Seq<char>
    decreases s.len(),
{
    if s.len() == 0 {
        Seq::empty()
    } else {
        esc_seq(s[0]) + json_escape(s.drop_first())
    }
}

proof fn lemma_json_escape_snoc(t: Seq<char>, c: char)
    ensures
        json_escape(t.push(c)) == json_escape(t) + esc_seq(c),
    decreases t.len(),
{
    if t.len() == 0 {
        assert(t.push(c)[0] == c);
        assert(t.push(c).drop_first() =~= t);
        assert(json_escape(t) =~= Seq::<char>::empty());
        assert(json_escape(t.push(c)) =~= json_escape(t) + esc_seq(c));
    } else {
        assert(t.push(c)[0] == t[0]);
        assert(t.push(c).drop_first() =~= t.drop_first().push(c));
        lemma_json_escape_snoc(t.drop_first(), c);
        assert(json_escape(t.push(c)) =~= json_escape(t) + esc_seq(c));
    }
}

/// Append `s` to `out` in JSON string notation (without the quotes).
pub fn append_escaped(out: &mut String, s: &str)
    ensures
        final(out)@ == old(out)@ + json_escape(s@),
{
    let n = s.unicode_len();
    let mut i: usize = 0;
    proof {
        assert(s@.take(0) =~= Seq::empty());
        assert(out@ =~= out@ + json_escape(s@.take(0)));
    }
    while i < n
        invariant
            n == s@.len(),
            i <= n,
            out@ == old(out)@ + json_escape(s@.take(i as int)),
        decreases n - i,
    {
        let c = s.get_char(i);
        proof {
            assert(s@.take(i as int + 1) =~= s@.take(i as int).push(c));
            lemma_json_escape_snoc(s@.take(i as int), c);
        }
        if c == '"' || c == '\\' {
            push_char(out, '\\');
            push_char(out, c);
        } else {
            push_char(out, c);
        }
        proof {
            assert(out@ =~= old(out)@ + json_escape(s@.take(i as int + 1)));
        }
        i = i + 1;
    }
    proof {
        assert(s@.take(n as int) =~= s@);
    }
}

/// A string with no character that JSON string notation escapes: it reads
/// back exactly as it stands.
pub open spec fn escape_free(s: Seq<char>) -> bool {
    forall|i: int| 0 <= i < s.len() ==> s[i] != '"' && s[i] != '\\'
}

/// An escape-free string is its own JSON string body.
pub proof fn lemma_escape_free_identity(s: Seq<char>)
    requires
        escape_free(s),
    ensures
        json_escape(s) == s,
    decreases s.len(),
{
    if s.len() == 0 {
        assert(json_escape(s) =~= s);
    } else {
        assert(s[0] != '"' && s[0] != '\\');
        lemma_escape_free_identity(s.drop_first());
        assert(json_escape(s) =~= s);
    }
}

/// The parser state after reading `s` from state `st` on.
pub open spec fn fold_from(st: LineState, s: Seq<char>) -> LineState
    decreases s.len(),
{
    if s.len() == 0 {
        st
    } else {
        fold_from(json_step(st, s[0]), s.drop_first())
    }
}

/// Reading a concatenation is reading one part after the other.
pub proof fn lemma_fold_from_app(st: LineState, a: Seq<char>, b: Seq<char>)
    ensures
        fold_from(st, a + b) == fold_from(fold_from(st, a), b),
    decreases a.len(),
{
    if a.len() == 0 {
        assert(a + b =~= b);
    } else {
        assert((a + b)[0] == a[0]);
        assert((a + b).drop_first() =~= a.drop_first() + b);
        lemma_fold_from_app(json_step(st, a[0]), a.drop_first(), b);
    }
}

/// Reading one character is one step.
pub proof fn lemma_fold_from_one(st: LineState, c: char)
    ensures
        fold_from(st, seq![c]) == json_step(st, c),
{
    assert(seq![c][0] == c);
    assert(seq![c].drop_first() =~= Seq::<char>::empty());
    assert(fold_from(json_step(st, c), seq![c].drop_first()) == json_step(st, c));
}

/// Reading two characters is two steps.
pub proof fn lemma_fold_from_two(st: LineState, c1: char, c2: char)
    ensures
        fold_from(st, seq![c1, c2]) == json_step(json_step(st, c1), c2),
{
    assert(seq![c1, c2][0] == c1);
    assert(seq![c1, c2].drop_first() =~= seq![c2]);
    lemma_fold_from_one(json_step(st, c1), c2);
}

/// The whole-line fold is the fold from the initial state.
pub proof fn lemma_fold_line_is_fold_from(s: Seq<char>)
    ensures
        fold_line(s) == fold_from(init_state(), s),
    decreases s.len(),
{
    if s.len() > 0 {
        lemma_fold_line_is_fold_from(s.drop_last());
        assert(s =~= s.drop_last() + seq![s.last()]);
        lemma_fold_from_app(init_state(), s.drop_last(), seq![s.last()]);
        lemma_fold_from_one(fold_from(init_state(), s.drop_last()), s.last());
    }
}

/// Inside a string, an escape-free text only grows the accumulator.
pub proof fn lemma_fold_raw_str_body(st: LineState, p: Seq<char>)
    requires
        st.mode == Mode::InStr,
        escape_free(p),
    ensures
        fold_from(st, p) == (LineState { sacc: st.sacc + p, ..st }),
    decreases p.len(),
{
    if p.len() == 0 {
        assert(st.sacc + p =~= st.sacc);
        assert(fold_from(st, p) =~= (LineState { sacc: st.sacc + p, ..st }));
    } else {
        let c = p[0];
        assert(c != '"' && c != '\\');
        let st1 = LineState { sacc: st.sacc.push(c), ..st };
        assert(json_step(st, c) == st1);
        lemma_fold_raw_str_body(st1, p.drop_first());
        assert(st.sacc.push(c) + p.drop_first() =~= st.sacc + p);
    }
}

/// Inside a string, the JSON notation of any text grows the accumulator by
/// exactly that text.
pub proof fn lemma_fold_str_body(st: LineState, p: Seq<char>)
    requires
        st.mode == Mode::InStr,
    ensures
        fold_from(st, json_escape(p)) == (LineState { sacc: st.sacc + p, ..st }),
    decreases p.len(),
{
    if p.len() == 0 {
        assert(json_escape(p) =~= Seq::<char>::empty());
        assert(st.sacc + p =~= st.sacc);
        assert(fold_from(st, json_escape(p)) =~= (LineState { sacc: st.sacc + p, ..st }));
    } else {
        let c = p[0];
        let st1 = LineState { sacc: st.sacc.push(c), ..st };
        lemma_fold_from_app(st, esc_seq(c), json_escape(p.drop_first()));
        if c == '"' || c == '\\' {
            lemma_fold_from_two(st, '\\', c);
            assert(fold_from(st, esc_seq(c)) == st1);
        } else {
            lemma_fold_from_one(st, c);
            assert(fold_from(st, esc_seq(c)) == st1);
        }
        lemma_fold_str_body(st1, p.drop_first());
        assert(st.sacc.push(c) + p.drop_first() =~= st.sacc + p);
    }
}

/// Inside a key, an escape-free text only grows the accumulator.
pub proof fn lemma_fold_key_body(st: LineState, k: Seq<char>)
    requires
        st.mode == Mode::InKey,
        escape_free(k),
    ensures
        fold_from(st, k) == (LineState { sacc: st.sacc + k, ..st }),
    decreases k.len(),
{
    if k.len() == 0 {
        assert(st.sacc + k =~= st.sacc);
        assert(fold_from(st, k) =~= (LineState { sacc: st.sacc + k, ..st }));
    } else {
        let c = k[0];
        assert(c != '"' && c != '\\');
        let st1 = LineState { sacc: st.sacc.push(c), ..st };
        assert(json_step(st, c) == st1);
        lemma_fold_key_body(st1, k.drop_first());
        assert(st.sacc.push(c) + k.drop_first() =~= st.sacc + k);
    }
}

/// A member's opening: the quoted key and its colon.
pub open spec fn key_colon(name: Seq<char>) -> Seq<char> {
    seq!['"'] + name + seq!['"', ':']
}

/// Reading a quoted key and its colon brings the parser to the value, with
/// the key recorded.
pub proof fn lemma_member_key(st: LineState, name: Seq<char>)
    requires
        st.mode == Mode::BeforeKey || st.mode == Mode::BeforeKeyComma,
        escape_free(name),
    ensures
        fold_from(st, key_colon(name)) == (LineState {
            mode: Mode::BeforeVal,
            key: name,
            sacc: name,
            ..st
        }),
{
    let stk = LineState { mode: Mode::InKey, sacc: Seq::empty(), ..st };
    lemma_fold_from_app(st, seq!['"'] + name, seq!['"', ':']);
    lemma_fold_from_app(st, seq!['"'], name);
    lemma_fold_from_one(st, '"');
    assert(json_step(st, '"') == stk);
    lemma_fold_key_body(stk, name);
    assert(Seq::empty() + name =~= name);
    let stn = LineState { mode: Mode::InKey, sacc: name, ..st };
    assert(fold_from(st, seq!['"'] + name) == stn);
    lemma_fold_from_two(stn, '"', ':');
    assert(json_step(json_step(stn, '"'), ':') == (LineState {
        mode: Mode::BeforeVal,
        key: name,
        sacc: name,
        ..st
    }));
}

/// A whole string-valued member: quoted key, colon, and the quoted JSON
/// notation of `p`.
pub open spec fn str_member(name: Seq<char>, p: Seq<char>) -> Seq<char> {
    key_colon(name) + seq!['"'] + json_escape(p) + seq!['"']
}

/// Reading a string-valued member records it and ends after the value.
pub proof fn lemma_fold_str_member(st: LineState, name: Seq<char>, p: Seq<char>)
    requires
        st.mode == Mode::BeforeKey || st.mode == Mode::BeforeKeyComma,
        escape_free(name),
    ensures
        fold_from(st, str_member(name, p)) == (LineState {
            mode: Mode::AfterVal,
            key: name,
            sacc: p,
            fields: st.fields.push((name, JsonV::Str(p))),
            ..st
        }),
{
    lemma_fold_from_app(st, key_colon(name) + seq!['"'] + json_escape(p), seq!['"']);
    lemma_fold_from_app(st, key_colon(name) + seq!['"'], json_escape(p));
    lemma_fold_from_app(st, key_colon(name), seq!['"']);
    lemma_member_key(st, name);
    let st_a = LineState { mode: Mode::BeforeVal, key: name, sacc: name, ..st };
    lemma_fold_from_one(st_a, '"');
    let st_b = LineState { mode: Mode::InStr, key: name, sacc: Seq::empty(), ..st };
    assert(json_step(st_a, '"') == st_b);
    lemma_fold_str_body(st_b, p);
    assert(Seq::empty() + p =~= p);
    let st_c = LineState { mode: Mode::InStr, key: name, sacc: p, ..st };
    assert(fold_from(st_b, json_escape(p)) == st_c);
    lemma_fold_from_one(st_c, '"');
    assert(json_step(st_c, '"') == (LineState {
        mode: Mode::AfterVal,
        key: name,
        sacc: p,
        fields: st.fields.push((name, JsonV::Str(p))),
        ..st
    }));
}

/// Relies on `String::push`: appends the given character to the end of the
/// string.
#[verifier::external_body]
pub fn push_char(s: &mut String, c: char)
    ensures
        final(s)@ == old(s)@.push(c),
{
    s.push(c);
}

proof fn lemma_fields_view_push(v: Seq<(String, JsonValue)>, p: (String, JsonValue))
    ensures
        fields_view(v.push(p)) == fields_view(v).push((p.0@, p.1@)),
{
    assert(fields_view(v.push(p)) =~= fields_view(v).push((p.0@, p.1@)));
}

proof fn lemma_fold_line_snoc(s: Seq<char>, i: int)
    requires
        0 <= i < s.len(),
    ensures
        fold_line(s.take(i + 1)) == json_step(fold_line(s.take(i)), s[i]),
{
    let t = s.take(i + 1);
    assert(t.drop_last() =~= s.take(i));
    assert(t.last() == s[i]);
}

/// Parse one line as a JSON object of scalar members.
///
/// Returns the members in source order, exactly as [`spec_parse_object`]
/// defines them, or `Err(ParseError::Syntax)` exactly when the line does not
/// satisfy the grammar.
#[verifier::rlimit(100)]
pub fn parse_object(s: &str) -> (r: Result<Vec<(String, JsonValue)>, ParseError>)
    ensures
        match r {
            Ok(v) => spec_parse_object(s@) == Ok::<Seq<(Seq<char>, JsonV)>, ParseError>(
                fields_view(v@),
            ),
            Err(e) => spec_parse_object(s@) == Err::<Seq<(Seq<char>, JsonV)>, ParseError>(e),
        },
{
    let n = s.unicode_len();
    let mut mode = Mode::Start;
    let mut key = String::new();
    let mut sacc = String::new();
    let mut nneg = false;
    let mut nisint = false;
    let mut nbig = false;
    let mut nmag: u64 = 0;
    let mut fields: Vec<(String, JsonValue)> = Vec::new();
    let mut i: usize = 0;
    while i < n
        invariant
            n == s@.len(),
            i <= n,
            mode == fold_line(s@.take(i as int)).mode,
            key@ == fold_line(s@.take(i as int)).key,
            sacc@ == fold_line(s@.take(i as int)).sacc,
            nneg == fold_line(s@.take(i as int)).nneg,
            nisint == fold_line(s@.take(i as int)).nisint,
            fold_line(s@.take(i as int)).nmag >= 0,
            !nbig ==> nmag == fold_line(s@.take(i as int)).nmag,
            nbig ==> fold_line(s@.take(i as int)).nmag > u64::MAX,
            fields_view(fields@) == fold_line(s@.take(i as int)).fields,
        decreases n - i,
    {
        let ghost g = fold_line(s@.take(i as int));
        let c = s.get_char(i);
        proof {
            lemma_fold_line_snoc(s@, i as int);
        }
        match mode {
            Mode::Start => {
                if c == '{' {
                    mode = Mode::BeforeKey;
                } else if !(c == ' ' || c == '\t' || c == '\n' || c == '\r') {
                    mode = Mode::Fail;
                }
            },
            Mode::BeforeKey => {
                if c == '"' {
                    mode = Mode::InKey;
                    sacc = String::new();
                } else if c == '}' {
                    mode = Mode::Done;
                } else if !(c == ' ' || c == '\t' || c == '\n' || c == '\r') {
                    mode = Mode::Fail;
                }
            },
            Mode::BeforeKeyComma => {
                if c == '"' {
                    mode = Mode::InKey;
                    sacc = String::new();
                } else if !(c == ' ' || c == '\t' || c == '\n' || c == '\r') {
                    mode = Mode::Fail;
                }
            },
            Mode::InKey => {
                if c == '"' {
                    mode = Mode::AfterKey;
                    key = sacc.clone();
                } else if c == '\\' {
                    mode = Mode::InKeyEsc;
                } else {
                    push_char(&mut sacc, c);
                }
            },
            Mode::InKeyEsc => {
                match exec_esc_char(c) {
                    Some(e) => {
                        mode = Mode::InKey;
                        push_char(&mut sacc, e);
                    },
                    None => {
                        mode = Mode::Fail;
                    },
                }
            },
            Mode::AfterKey => {
                if c == ':' {
                    mode = Mode::BeforeVal;
                } else if !(c == ' ' || c == '\t' || c == '\n' || c == '\r') {
                    mode = Mode::Fail;
                }
            },
            Mode::BeforeVal => {
                if c == '"' {
                    mode = Mode::InStr;
                    sacc = String::new();
                } else if c == '-' {
                    mode = Mode::NumMinus;
                    nneg = true;
                    nisint = true;
                    nbig = false;
                    nmag = 0;
                } else if c == '0' {
                    mode = Mode::NumZero;
                    nneg = false;
                    nisint = true;
                    nbig = false;
                    nmag = 0;
                } else if '1' <= c && c <= '9' {
                    mode = Mode::NumInt;
                    nneg = false;
                    nisint = true;
                    nbig = false;
                    nmag = (c as u32 - 48) as u64;
                } else if c == 't' || c == 'f' || c == 'n' {
                    mode = Mode::InWord;
                    sacc = String::new();
                    push_char(&mut sacc, c);
                    proof {
                        assert(sacc@ =~= Seq::empty().push(c));
                    }
                } else if !(c == ' ' || c == '\t' || c == '\n' || c == '\r') {
                    mode = Mode::Fail;
                }
            },
            Mode::InStr => {
                if c == '"' {
                    mode = Mode::AfterVal;
                    let p = (key.clone(), JsonValue::Str(sacc.clone()));
                    proof {
                        lemma_fields_view_push(fields@, p);
                    }
                    fields.push(p);
                } else if c == '\\' {
                    mode = Mode::InStrEsc;
                } else {
                    push_char(&mut sacc, c);
                }
            },
            Mode::InStrEsc => {
                match exec_esc_char(c) {
                    Some(e) => {
                        mode = Mode::InStr;
                        push_char(&mut sacc, e);
                    },
                    None => {
                        mode = Mode::Fail;
                    },
                }
            },
            Mode::NumMinus => {
                if c == '0' {
                    mode = Mode::NumZero;
                    nbig = false;
                    nmag = 0;
                } else if '1' <= c && c <= '9' {
                    mode = Mode::NumInt;
                    nbig = false;
                    nmag = (c as u32 - 48) as u64;
                } else {
                    mode = Mode::Fail;
                }
            },
            Mode::NumZero => {
                if c == '.' {
                    mode = Mode::NumDot;
                    nisint = false;
                } else if c == 'e' || c == 'E' {
                    mode = Mode::NumE;
                    nisint = false;
                } else if c == ',' || c == '}' || c == ' ' || c == '\t' || c == '\n' || c == '\r' {
                    let jv = finish_number(nneg, nisint, nbig, nmag, Ghost(g.nmag));
                    let p = (key.clone(), jv);
                    proof {
                        lemma_fields_view_push(fields@, p);
                    }
                    fields.push(p);
                    mode = delim_mode(c);
                } else {
                    mode = Mode::Fail;
                }
            },
            Mode::NumInt => {
                if '0' <= c && c <= '9' {
                    let d = (c as u32 - 48) as u64;
                    if !nbig {
                        if nmag > 1844674407370955161 || (nmag == 1844674407370955161 && d > 5) {
                            nbig = true;
                        } else {
                            nmag = nmag * 10 + d;
                        }
                    }
                } else if c == '.' {
                    mode = Mode::NumDot;
                    nisint = false;
                } else if c == 'e' || c == 'E' {
                    mode = Mode::NumE;
                    nisint = false;
                } else if c == ',' || c == '}' || c == ' ' || c == '\t' || c == '\n' || c == '\r' {
                    let jv = finish_number(nneg, nisint, nbig, nmag, Ghost(g.nmag));
                    let p = (key.clone(), jv);
                    proof {
                        lemma_fields_view_push(fields@, p);
                    }
                    fields.push(p);
                    mode = delim_mode(c);
                } else {
                    mode = Mode::Fail;
                }
            },
            Mode::NumDot => {
                if '0' <= c && c <= '9' {
                    mode = Mode::NumFrac;
                } else {
                    mode = Mode::Fail;
                }
            },
            Mode::NumFrac => {
                if '0' <= c && c <= '9' {
                } else if c == 'e' || c == 'E' {
                    mode = Mode::NumE;
                } else if c == ',' || c == '}' || c == ' ' || c == '\t' || c == '\n' || c == '\r' {
                    let jv = finish_number(nneg, nisint, nbig, nmag, Ghost(g.nmag));
                    let p = (key.clone(), jv);
                    proof {
                        lemma_fields_view_push(fields@, p);
                    }
                    fields.push(p);
                    mode = delim_mode(c);
                } else {
                    mode = Mode::Fail;
                }
            },
            Mode::NumE => {
                if '0' <= c && c <= '9' {
                    mode = Mode::NumExp;
                } else if c == '+' || c == '-' {
                    mode = Mode::NumESign;
                } else {
                    mode = Mode::Fail;
                }
            },
            Mode::NumESign => {
                if '0' <= c && c <= '9' {
                    mode = Mode::NumExp;
                } else {
                    mode = Mode::Fail;
                }
            },
            Mode::NumExp => {
                if '0' <= c && c <= '9' {
                } else if c == ',' || c == '}' || c == ' ' || c == '\t' || c == '\n' || c == '\r' {
                    let jv = finish_number(nneg, nisint, nbig, nmag, Ghost(g.nmag));
                    let p = (key.clone(), jv);
                    proof {
                        lemma_fields_view_push(fields@, p);
                    }
                    fields.push(p);
                    mode = delim_mode(c);
                } else {
                    mode = Mode::Fail;
                }
            },
            Mode::InWord => {
                if 'a' <= c && c <= 'z' {
                    push_char(&mut sacc, c);
                } else if c == ',' || c == '}' || c == ' ' || c == '\t' || c == '\n' || c == '\r' {
                    if sacc == String::from_str("true") || sacc == String::from_str("false") {
                        let p = (key.clone(), JsonValue::Other);
                        proof {
                            lemma_fields_view_push(fields@, p);
                        }
                        fields.push(p);
                        mode = delim_mode(c);
                    } else if sacc == String::from_str("null") {
                        let p = (key.clone(), JsonValue::Null);
                        proof {
                            lemma_fields_view_push(fields@, p);
                        }
                        fields.push(p);
                        mode = delim_mode(c);
                    } else {
                        mode = Mode::Fail;
                    }
                } else {
                    mode = Mode::Fail;
                }
            },
            Mode::AfterVal => {
                if c == ',' {
                    mode = Mode::BeforeKeyComma;
                } else if c == '}' {
                    mode = Mode::Done;
                } else if !(c == ' ' || c == '\t' || c == '\n' || c == '\r') {
                    mode = Mode::Fail;
                }
            },
            Mode::Done => {
                if !(c == ' ' || c == '\t' || c == '\n' || c == '\r') {
                    mode = Mode::Fail;
                }
            },
            Mode::Fail => {},
        }
        i = i + 1;
    }
    proof {
        assert(s@.take(n as int) =~= s@);
    }
    if matches!(mode, Mode::Done) {
        Ok(fields)
    } else {
        Err(ParseError::Syntax)
    }
}

/// The state reached after the delimiter `c` ends a number or word value.
fn delim_mode(c: char) -> (m: Mode)
    requires
        is_delim(c),
    ensures
        m == (if c == ',' {
            Mode::BeforeKeyComma
        } else if c == '}' {
            Mode::Done
        } else {
            Mode::AfterVal
        }),
{
    if c == ',' {
        Mode::BeforeKeyComma
    } else if c == '}' {
        Mode::Done
    } else {
        Mode::AfterVal
    }
}

/// The escape mapping, executably.
fn exec_esc_char(c: char) -> (r: Option<char>)
    ensures
        r == esc_char_of(c),
{
    if c == '"' {
        Some('"')
    } else if c == '\\' {
        Some('\\')
    } else if c == '/' {
        Some('/')
    } else if c == 'b' {
        Some('\u{8}')
    } else if c == 'f' {
        Some('\u{c}')
    } else if c == 'n' {
        Some('\n')
    } else if c == 'r' {
        Some('\r')
    } else if c == 't' {
        Some('\t')
    } else {
        None
    }
}

/// Turn a finished number accumulator into its member value.
///
/// `mag` is the exact magnitude; `big` says the magnitude left `u64`, and
/// `nmag` then underestimates it.
fn finish_number(neg: bool, isint: bool, big: bool, nmag: u64, mag: Ghost<int>) -> (r: JsonValue)
    requires
        mag@ >= 0,
        !big ==> nmag == mag@,
        big ==> mag@ > u64::MAX,
    ensures
        r@ == num_jv(neg, isint, mag@),
{
    if isint && !big {
        if neg {
            if nmag <= 9223372036854775807 {
                JsonValue::Int(-(nmag as i64))
            } else if nmag == 9223372036854775808 {
                JsonValue::Int(-9223372036854775807i64 - 1)
            } else {
                JsonValue::Other
            }
        } else {
            if nmag <= 9223372036854775807 {
                JsonValue::Int(nmag as i64)
            } else {
                JsonValue::Other
            }
        }
    } else {
        JsonValue::Other
    }
}

} // verus!
