use vstd::prelude::*;

use serde_json::Value;

use crate::text::{trim, trimmed};

verus! {

/// What a JSON value is; a boolean carries its value, a number its value as
/// an `i64` and as a `u64` where it has one, a string its content, an array
/// the compact JSON text of each element, an object each key with the
/// compact JSON text of its value.
pub enum JsonKind {
    Null,
    Bool(bool),
    Number(Option<i64>, Option<u64>),
    Text(String),
    Array(Vec<String>),
    Object(Vec<(String, String)>),
}

pub enum JsonKindView {
    Null,
    Bool(bool),
    Number(Option<i64>, Option<u64>),
    Text(Seq<char>),
    Array(Seq<Seq<char>>),
    Object(Seq<(Seq<char>, Seq<char>)>),
}

pub open spec fn members_view(members: Seq<(String, String)>) -> Seq<(Seq<char>, Seq<char>)> {
    members.map_values(|m: (String, String)| (m.0@, m.1@))
}

impl View for JsonKind {
    type V = JsonKindView;

    open spec fn view(&self) -> JsonKindView {
        match self {
            JsonKind::Null => JsonKindView::Null,
            JsonKind::Bool(b) => JsonKindView::Bool(*b),
            JsonKind::Number(i, u) => JsonKindView::Number(*i, *u),
            JsonKind::Text(s) => JsonKindView::Text(s@),
            JsonKind::Array(items) => JsonKindView::Array(items.deep_view()),
            JsonKind::Object(members) => JsonKindView::Object(members_view(members@)),
        }
    }
}

/// One request inside a raw batch: its type and its data as JSON text.
pub struct RawCall {
    pub request_type: String,
    pub request_data: String,
}

impl View for RawCall {
    type V = (Seq<char>, Seq<char>);

    open spec fn view(&self) -> (Seq<char>, Seq<char>) {
        (self.request_type@, self.request_data@)
    }
}

impl RawCall {
    pub fn new(request_type: String, request_data: String) -> (call: RawCall)
        ensures
            call@ == (request_type@, request_data@),
    {
        RawCall { request_type, request_data }
    }
}

pub open spec fn kind_result_view(r: Result<JsonKind, String>) -> Result<JsonKindView, Seq<char>> {
    match r {
        Ok(k) => Ok(k@),
        Err(e) => Err(e@),
    }
}

pub open spec fn text_option_view(o: Option<String>) -> Option<Seq<char>> {
    match o {
        Some(s) => Some(s@),
        None => None,
    }
}

/// What serde_json reads from a JSON text: the value (its elements and
/// members written back as compact JSON text), or the parse error's message.
pub uninterp spec fn json_kind(text: Seq<char>) -> Result<JsonKindView, Seq<char>>;

/// Calls `serde_json::from_str::<serde_json::Value>` and reports the value:
/// a boolean's value, a number's `as_i64` and `as_u64`, a string's content,
/// each element of an array and each member of an object written back with
/// `Value::to_string`; or the error's message. The contract names that
/// result `json_kind` of the text.
#[verifier::external_body]
pub(crate) fn read_json_kind(text: &str) -> (kind: Result<JsonKind, String>)
    ensures
        kind_result_view(kind) == json_kind(text@),
{
    let value = match serde_json::from_str::<Value>(text) {
        Ok(value) => value,
        Err(error) => return Err(error.to_string()),
    };
    Ok(match value {
        Value::Null => JsonKind::Null,
        Value::Bool(b) => JsonKind::Bool(b),
        Value::Number(n) => JsonKind::Number(n.as_i64(), n.as_u64()),
        Value::String(content) => JsonKind::Text(content),
        Value::Array(items) => JsonKind::Array(items.iter().map(Value::to_string).collect()),
        Value::Object(members) => JsonKind::Object(members.iter().map(|(k, v)| (k.clone(), v.to_string())).collect()),
    })
}

/// The value of the first member named `key`.
pub open spec fn member_in(members: Seq<(Seq<char>, Seq<char>)>, key: Seq<char>) -> Option<Seq<char>>
    decreases members.len(),
{
    if members.len() == 0 {
        None
    } else if members[0].0 == key {
        Some(members[0].1)
    } else {
        member_in(members.drop_first(), key)
    }
}

/// The compact JSON text of the member named `key`, where the text holds an
/// object that has one.
pub open spec fn json_member(text: Seq<char>, key: Seq<char>) -> Option<Seq<char>> {
    match json_kind(text) {
        Ok(JsonKindView::Object(members)) => member_in(members, key),
        _ => None,
    }
}

fn find_member(members: &Vec<(String, String)>, key: &str) -> (member: Option<String>)
    ensures
        text_option_view(member) == member_in(members_view(members@), key@),
{
    let ghost mv = members_view(members@);
    assert(mv.skip(0) =~= mv);
    let mut i: usize = 0;
    while i < members.len()
        invariant
            i <= members.len(),
            mv == members_view(members@),
            member_in(mv, key@) == member_in(mv.skip(i as int), key@),
        decreases members.len() - i,
    {
        assert(mv.skip(i as int).drop_first() =~= mv.skip(i + 1));
        if crate::text::same_str(members[i].0.as_str(), key) {
            return Some(members[i].1.clone());
        }
        i = i + 1;
    }
    None
}

/// Read the member `key` of a JSON object text, as compact JSON text.
pub(crate) fn read_json_member(text: &str, key: &str) -> (member: Option<String>)
    ensures
        text_option_view(member) == json_member(text@, key@),
{
    match read_json_kind(text) {
        Ok(JsonKind::Object(members)) => find_member(&members, key),
        _ => None,
    }
}

/// Reading a JSON setting: blank text stands for an empty object; otherwise
/// the trimmed text and its kind, or the parse error.
pub open spec fn spec_parse_json(text: Seq<char>) -> Result<(Seq<char>, JsonKindView), Seq<char>> {
    let t = trimmed(text);
    if t.len() == 0 {
        Ok(("{}"@, JsonKindView::Object(Seq::empty())))
    } else {
        match json_kind(t) {
            Ok(k) => Ok((t, k)),
            Err(e) => Err("invalid JSON: "@ + e),
        }
    }
}

pub open spec fn parsed_view(r: Result<(String, JsonKind), String>) -> Result<
    (Seq<char>, JsonKindView),
    Seq<char>,
> {
    match r {
        Ok((t, k)) => Ok((t@, k@)),
        Err(e) => Err(e@),
    }
}

pub open spec fn text_result_view(r: Result<String, String>) -> Result<Seq<char>, Seq<char>> {
    match r {
        Ok(t) => Ok(t@),
        Err(e) => Err(e@),
    }
}

/// Read a JSON setting: the JSON text to send and what kind of value it holds.
pub fn parse_json(text: &str) -> (parsed: Result<(String, JsonKind), String>)
    ensures
        parsed_view(parsed) == spec_parse_json(text@),
{
    let t = trim(text);
    if t.is_empty() {
        let empty: Vec<(String, String)> = Vec::new();
        assert(members_view(empty@) =~= Seq::empty());
        return Ok((String::from_str("{}"), JsonKind::Object(empty)));
    }
    match read_json_kind(t) {
        Ok(kind) => Ok((t.to_owned(), kind)),
        Err(error) => {
            let mut message = String::from_str("invalid JSON: ");
            message.append(error.as_str());
            Err(message)
        },
    }
}

/// Request data from a parsed setting: an object as written, `null` as an
/// empty object, anything else refused.
pub open spec fn spec_object_data(parsed: Result<(Seq<char>, JsonKindView), Seq<char>>) -> Result<
    Seq<char>,
    Seq<char>,
> {
    match parsed {
        Ok((t, JsonKindView::Object(_))) => Ok(t),
        Ok((_, JsonKindView::Null)) => Ok("{}"@),
        Ok(_) => Err("request data must be a JSON object"@),
        Err(e) => Err(e),
    }
}

/// The request data that a parsed setting gives.
pub fn object_data(parsed: Result<(String, JsonKind), String>) -> (data: Result<String, String>)
    ensures
        text_result_view(data) == spec_object_data(parsed_view(parsed)),
{
    match parsed {
        Ok((t, JsonKind::Object(_))) => Ok(t),
        Ok((_, JsonKind::Null)) => Ok(String::from_str("{}")),
        Ok(_) => Err(String::from_str("request data must be a JSON object")),
        Err(e) => Err(e),
    }
}

/// Read the request data of a raw request.
pub fn parse_json_object(text: &str) -> (data: Result<String, String>)
    ensures
        text_result_view(data) == spec_object_data(spec_parse_json(text@)),
{
    object_data(parse_json(text))
}

/// A batch entry's request: the `requestType` member where it is a string
/// (else empty), and the `requestData` member (else an empty object).
pub open spec fn spec_raw_call(
    request_type: Option<Result<JsonKindView, Seq<char>>>,
    request_data: Option<Seq<char>>,
) -> (Seq<char>, Seq<char>) {
    (
        match request_type {
            Some(Ok(JsonKindView::Text(s))) => s,
            _ => Seq::empty(),
        },
        match request_data {
            Some(d) => d,
            None => "{}"@,
        },
    )
}

pub open spec fn kind_option_view(o: Option<Result<JsonKind, String>>) -> Option<
    Result<JsonKindView, Seq<char>>,
> {
    match o {
        Some(r) => Some(kind_result_view(r)),
        None => None,
    }
}

/// The call that one batch entry describes, from what its members read as.
pub fn raw_call_from(request_type: Option<Result<JsonKind, String>>, request_data: Option<String>) -> (call: RawCall)
    ensures
        call@ == spec_raw_call(kind_option_view(request_type), text_option_view(request_data)),
{
    let kind = match request_type {
        Some(Ok(JsonKind::Text(s))) => s,
        _ => String::new(),
    };
    let data = match request_data {
        Some(d) => d,
        None => String::from_str("{}"),
    };
    RawCall::new(kind, data)
}

/// What the `requestType` member of an entry reads as.
pub open spec fn entry_type(entry: Seq<char>) -> Option<Result<JsonKindView, Seq<char>>> {
    match json_member(entry, "requestType"@) {
        Some(m) => Some(json_kind(m)),
        None => None,
    }
}

/// The calls of the given batch entries, without those with an empty type.
pub open spec fn entry_calls(entries: Seq<Seq<char>>) -> Seq<(Seq<char>, Seq<char>)>
    decreases entries.len(),
{
    if entries.len() == 0 {
        Seq::empty()
    } else {
        let before = entry_calls(entries.drop_last());
        let call = spec_raw_call(
            entry_type(entries.last()),
            json_member(entries.last(), "requestData"@),
        );
        if call.0.len() == 0 {
            before
        } else {
            before.push(call)
        }
    }
}

/// Reading a batch setting: a JSON array of `{requestType, requestData}` entries.
pub open spec fn spec_batch_calls(text: Seq<char>) -> Result<Seq<(Seq<char>, Seq<char>)>, Seq<char>> {
    match spec_parse_json(text) {
        Ok((_, JsonKindView::Array(items))) => Ok(entry_calls(items)),
        Ok(_) => Err("batch requests must be a JSON array"@),
        Err(e) => Err(e),
    }
}

pub open spec fn calls_view(calls: Seq<RawCall>) -> Seq<(Seq<char>, Seq<char>)> {
    calls.map_values(|c: RawCall| c@)
}

pub open spec fn calls_result_view(r: Result<Vec<RawCall>, String>) -> Result<
    Seq<(Seq<char>, Seq<char>)>,
    Seq<char>,
> {
    match r {
        Ok(calls) => Ok(calls_view(calls@)),
        Err(e) => Err(e@),
    }
}

/// Read the calls of a raw batch.
pub fn batch_calls(text: &str) -> (calls: Result<Vec<RawCall>, String>)
    ensures
        calls_result_view(calls) == spec_batch_calls(text@),
{
    let parsed = parse_json(text);
    let entries = match parsed {
        Ok((_, JsonKind::Array(items))) => items,
        Ok(_) => return Err(String::from_str("batch requests must be a JSON array")),
        Err(e) => return Err(e),
    };
    let ghost ev = entries.deep_view();
    let mut calls: Vec<RawCall> = Vec::new();
    let mut i: usize = 0;
    while i < entries.len()
        invariant
            i <= entries.len(),
            ev == entries.deep_view(),
            calls_view(calls@) == entry_calls(ev.take(i as int)),
        decreases entries.len() - i,
    {
        let entry = entries[i].as_str();
        let kind = match read_json_member(entry, "requestType") {
            Some(member) => Some(read_json_kind(member.as_str())),
            None => None,
        };
        let data = read_json_member(entry, "requestData");
        proof {
            reveal_strlit("requestType");
            reveal_strlit("requestData");
        }
        let call = raw_call_from(kind, data);
        assert(ev.take(i + 1).drop_last() =~= ev.take(i as int));
        assert(ev.take(i + 1).last() == entries[i as int]@);
        if !call.request_type.as_str().is_empty() {
            calls.push(call);
            assert(calls_view(calls@) =~= entry_calls(ev.take(i as int)).push(call@));
        }
        i = i + 1;
    }
    assert(ev.take(entries.len() as int) =~= ev);
    Ok(calls)
}

/// The string member `key` of a JSON object text, where there is one.
pub open spec fn string_member(text: Seq<char>, key: Seq<char>) -> Option<Seq<char>> {
    match json_member(text, key) {
        Some(m) => match json_kind(m) {
            Ok(JsonKindView::Text(s)) => Some(s),
            _ => None,
        },
        None => None,
    }
}

/// Read the string member `key` of a JSON object text.
pub fn read_string_member(text: &str, key: &str) -> (member: Option<String>)
    ensures
        text_option_view(member) == string_member(text@, key@),
{
    match read_json_member(text, key) {
        Some(m) => match read_json_kind(m.as_str()) {
            Ok(JsonKind::Text(s)) => Some(s),
            _ => None,
        },
        None => None,
    }
}

/// The boolean member `key` of a JSON object text, where there is one.
pub open spec fn bool_member(text: Seq<char>, key: Seq<char>) -> Option<bool> {
    match json_member(text, key) {
        Some(m) => match json_kind(m) {
            Ok(JsonKindView::Bool(b)) => Some(b),
            _ => None,
        },
        None => None,
    }
}

/// The member `key` of a JSON object text as an `i64`, where it is a number
/// that fits one.
pub open spec fn i64_member(text: Seq<char>, key: Seq<char>) -> Option<i64> {
    match json_member(text, key) {
        Some(m) => match json_kind(m) {
            Ok(JsonKindView::Number(i, _)) => i,
            _ => None,
        },
        None => None,
    }
}

/// The member `key` of a JSON object text as a `u64`, where it is a number
/// that fits one.
pub open spec fn u64_member(text: Seq<char>, key: Seq<char>) -> Option<u64> {
    match json_member(text, key) {
        Some(m) => match json_kind(m) {
            Ok(JsonKindView::Number(_, u)) => u,
            _ => None,
        },
        None => None,
    }
}

/// Read the boolean member `key` of a JSON object text.
pub fn read_bool_member(text: &str, key: &str) -> (member: Option<bool>)
    ensures
        member == bool_member(text@, key@),
{
    match read_json_member(text, key) {
        Some(m) => match read_json_kind(m.as_str()) {
            Ok(JsonKind::Bool(b)) => Some(b),
            _ => None,
        },
        None => None,
    }
}

/// Read the member `key` of a JSON object text as an `i64`.
pub fn read_i64_member(text: &str, key: &str) -> (member: Option<i64>)
    ensures
        member == i64_member(text@, key@),
{
    match read_json_member(text, key) {
        Some(m) => match read_json_kind(m.as_str()) {
            Ok(JsonKind::Number(i, _)) => i,
            _ => None,
        },
        None => None,
    }
}

/// Read the member `key` of a JSON object text as a `u64`.
pub fn read_u64_member(text: &str, key: &str) -> (member: Option<u64>)
    ensures
        member == u64_member(text@, key@),
{
    match read_json_member(text, key) {
        Some(m) => match read_json_kind(m.as_str()) {
            Ok(JsonKind::Number(_, u)) => u,
            _ => None,
        },
        None => None,
    }
}

/// How serde_json writes one character inside a JSON string: `"` and `\`
/// behind a backslash; backspace, tab, line feed, form feed and carriage
/// return as `\b \t \n \f \r`; the other characters below U+0020 as
/// `\u00` and two lower-case hex digits; every other character as it is.
pub open spec fn json_escaped_char(c: char) -> Seq<char> {
    let u = c as u32;
    if c == '"' {
        seq!['\\', '"']
    } else if c == '\\' {
        seq!['\\', '\\']
    } else if u == 0x08 {
        seq!['\\', 'b']
    } else if u == 0x09 {
        seq!['\\', 't']
    } else if u == 0x0a {
        seq!['\\', 'n']
    } else if u == 0x0c {
        seq!['\\', 'f']
    } else if u == 0x0d {
        seq!['\\', 'r']
    } else if u < 0x20 {
        seq!['\\', 'u', '0', '0', "0123456789abcdef"@[(u / 16) as int], "0123456789abcdef"@[(u % 16) as int]]
    } else {
        seq![c]
    }
}

/// A text with each character escaped as in a JSON string.
pub open spec fn json_escaped(text: Seq<char>) -> Seq<char>
    decreases text.len(),
{
    if text.len() == 0 {
        Seq::empty()
    } else {
        json_escaped(text.drop_last()) + json_escaped_char(text.last())
    }
}

/// The JSON string literal of a text: the escaped text between quotes.
pub open spec fn json_quoted(text: Seq<char>) -> Seq<char> {
    seq!['"'] + json_escaped(text) + seq!['"']
}

/// Calls `serde_json::to_string` on a `str`. serde_json writes a string
/// between quotes, escaping through its `ESCAPE` table and
/// `write_char_escape` as `json_escaped_char` states; it documents no failure
/// for a string.
#[verifier::external_body]
pub(crate) fn quote_json(text: &str) -> (quoted: String)
    ensures
        quoted@ == json_quoted(text@),
{
    serde_json::to_string(text).unwrap_or_default()
}

} // verus!
