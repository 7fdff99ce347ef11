//! The OBS WebSocket v5 protocol as a raw session speaks it: reading what OBS
//! sends, the identify handshake, request ids, the request and batch messages
//! and reading a request's answer. The socket itself is the caller's.
use vstd::prelude::*;

use crate::json::{
    bool_member, i64_member, json_kind, json_member, json_quoted, quote_json, read_bool_member,
    read_i64_member, read_json_kind, read_json_member, read_string_member, read_u64_member,
    string_member, text_option_view, u64_member, RawCall,
};
use crate::render::{base64, base64_encode};
use crate::text::{decimal, decimal_text, digits, digits_text};
use vstd::utf8::encode_utf8;

verus! {

/// Why a raw session failed.
pub enum RawError {
    /// The websocket failed, with its message.
    WebSocket(String),
    /// OBS closed the connection, with why.
    Closed(String),
    /// OBS sent what the protocol does not allow at that point.
    Protocol,
    /// OBS asked for a password that was not given, or refused the one given.
    Auth,
    /// OBS answered a request with a failure.
    Request { request_type: String, code: i64, comment: String },
}

/// The text a raw error reads as.
pub open spec fn spec_raw_error_message(e: RawError) -> Seq<char> {
    match e {
        RawError::WebSocket(m) => "websocket error: "@ + m@,
        RawError::Closed(m) => "OBS closed the connection: "@ + m@,
        RawError::Protocol => "unexpected OBS message"@,
        RawError::Auth => "authentication failed"@,
        RawError::Request { request_type, code, comment } => "request `"@ + request_type@ + "` failed ("@
            + decimal(code as int) + "): "@ + comment@,
    }
}

impl RawError {
    /// The error as text.
    pub fn message(&self) -> (m: String)
        ensures
            m@ == spec_raw_error_message(*self),
    {
        match self {
            RawError::WebSocket(m) => {
                let mut out = String::from_str("websocket error: ");
                out.append(m.as_str());
                out
            },
            RawError::Closed(m) => {
                let mut out = String::from_str("OBS closed the connection: ");
                out.append(m.as_str());
                out
            },
            RawError::Protocol => String::from_str("unexpected OBS message"),
            RawError::Auth => String::from_str("authentication failed"),
            RawError::Request { request_type, code, comment } => {
                let mut out = String::from_str("request `");
                out.append(request_type.as_str());
                out.append("` failed (");
                out.append(decimal_text(*code).as_str());
                out.append("): ");
                out.append(comment.as_str());
                out
            },
        }
    }
}

/// One message from OBS: its op code, its `d` member as JSON text, and
/// whether it was the socket closing.
pub struct Incoming {
    pub op: u8,
    pub data: String,
    pub closed: bool,
}

/// The op code of a message text: its `op` member as a `u64`, cut to a byte
/// (255 when there is none).
pub open spec fn incoming_op(text: Seq<char>) -> u8 {
    match u64_member(text, "op"@) {
        Some(u) => u as u8,
        None => 255,
    }
}

/// The data of a message text: its `d` member, `null` when there is none.
pub open spec fn incoming_data(text: Seq<char>) -> Seq<char> {
    match json_member(text, "d"@) {
        Some(d) => d,
        None => "null"@,
    }
}

/// Read a text message from OBS; one that is not JSON breaks the protocol.
pub fn read_incoming(text: &str) -> (incoming: Result<Incoming, RawError>)
    ensures
        json_kind(text@) is Err <==> incoming is Err,
        incoming matches Err(e) ==> e is Protocol,
        incoming matches Ok(m) ==> m.op == incoming_op(text@) && m.data@ == incoming_data(text@) && !m.closed,
{
    match read_json_kind(text) {
        Err(_) => Err(RawError::Protocol),
        Ok(_) => {
            let op: u8 = match read_u64_member(text, "op") {
                Some(u) => #[verifier::truncate] (u as u8),
                None => 255,
            };
            let data = match read_json_member(text, "d") {
                Some(d) => d,
                None => String::from_str("null"),
            };
            Ok(Incoming { op, data, closed: false })
        },
    }
}

/// The SHA-256 digest of a byte sequence.
pub uninterp spec fn sha256(bytes: Seq<u8>) -> Seq<u8>;

/// Calls `sha2::Sha256::digest` and copies the digest out; the contract names
/// it `sha256` of the bytes, and says that it is 32 bytes long, as the type's
/// output size (`U32`) fixes.
#[verifier::external_body]
fn sha256_digest(bytes: &[u8]) -> (digest: Vec<u8>)
    ensures
        digest@ == sha256(bytes@),
        digest@.len() == 32,
{
    <sha2::Sha256 as sha2::Digest>::digest(bytes).to_vec()
}

/// The OBS WebSocket v5 authentication string:
/// `base64(sha256(base64(sha256(password + salt)) + challenge))`, each text
/// taken as its UTF-8 bytes.
pub open spec fn spec_authentication(password: Seq<char>, salt: Seq<char>, challenge: Seq<char>) -> Seq<char> {
    let secret = base64(sha256(encode_utf8(password + salt)));
    base64(sha256(encode_utf8(secret + challenge)))
}

/// The authentication string OBS asks for, from the password and the salt
/// and challenge of its hello.
pub fn authentication_string(password: &str, salt: &str, challenge: &str) -> (auth: String)
    ensures
        auth@ == spec_authentication(password@, salt@, challenge@),
{
    let mut first = String::from_str(password);
    first.append(salt);
    let secret_digest = sha256_digest(first.as_str().as_bytes());
    let mut second = base64_encode(secret_digest.as_slice());
    second.append(challenge);
    let digest = sha256_digest(second.as_str().as_bytes());
    base64_encode(digest.as_slice())
}

/// What to send after OBS's hello: the RPC version, and the authentication
/// string where OBS asks for one.
pub struct Identify {
    pub rpc_version: u64,
    pub authentication: Option<String>,
}

impl View for Identify {
    type V = (u64, Option<Seq<char>>);

    open spec fn view(&self) -> (u64, Option<Seq<char>>) {
        (self.rpc_version, text_option_view(self.authentication))
    }
}

pub open spec fn or_empty(text: Option<Seq<char>>) -> Seq<char> {
    match text {
        Some(t) => t,
        None => Seq::empty(),
    }
}

/// The answer to OBS's hello: a hello has op 0; the RPC version is the one
/// OBS offers (1 when it names none); where OBS asks for authentication, a
/// non-empty password is needed and the string is made from its salt and
/// challenge (empty where missing).
pub open spec fn spec_hello(op: u8, data: Seq<char>, password: Option<Seq<char>>) -> Result<
    (u64, Option<Seq<char>>),
    RawError,
> {
    if op != 0 {
        Err(RawError::Protocol)
    } else {
        let rpc_version = match u64_member(data, "rpcVersion"@) {
            Some(v) => v,
            None => 1,
        };
        let given = match password {
            Some(p) => if p.len() > 0 {
                Some(p)
            } else {
                None
            },
            None => None,
        };
        match (json_member(data, "authentication"@), given) {
            (Some(auth), Some(p)) => Ok(
                (
                    rpc_version,
                    Some(
                        spec_authentication(
                            p,
                            or_empty(string_member(auth, "salt"@)),
                            or_empty(string_member(auth, "challenge"@)),
                        ),
                    ),
                ),
            ),
            (Some(_), None) => Err(RawError::Auth),
            _ => Ok((rpc_version, None)),
        }
    }
}

pub open spec fn identify_result_matches(r: Result<Identify, RawError>, s: Result<(u64, Option<Seq<char>>), RawError>) -> bool {
    match (r, s) {
        (Ok(i), Ok(v)) => i@ == v,
        (Err(e), Err(f)) => e == f,
        _ => false,
    }
}

/// Answer OBS's hello.
pub fn on_hello(hello: &Incoming, password: Option<&str>) -> (identify: Result<Identify, RawError>)
    ensures
        identify_result_matches(
            identify,
            spec_hello(
                hello.op,
                hello.data@,
                match password {
                    Some(p) => Some(p@),
                    None => None,
                },
            ),
        ),
{
    if hello.op != 0 {
        return Err(RawError::Protocol);
    }
    let data = hello.data.as_str();
    let rpc_version = match read_u64_member(data, "rpcVersion") {
        Some(v) => v,
        None => 1,
    };
    let given = match password {
        Some(p) => if p.is_empty() {
            None
        } else {
            Some(p)
        },
        None => None,
    };
    match (read_json_member(data, "authentication"), given) {
        (Some(auth), Some(p)) => {
            let salt = match read_string_member(auth.as_str(), "salt") {
                Some(s) => s,
                None => String::new(),
            };
            let challenge = match read_string_member(auth.as_str(), "challenge") {
                Some(c) => c,
                None => String::new(),
            };
            let authentication = authentication_string(p, salt.as_str(), challenge.as_str());
            Ok(Identify { rpc_version, authentication: Some(authentication) })
        },
        (Some(_), None) => Err(RawError::Auth),
        _ => Ok(Identify { rpc_version, authentication: None }),
    }
}

/// Read OBS's answer to identify: the socket closing means the password was
/// refused; anything but op 2 breaks the protocol.
pub fn on_identified(identified: &Incoming) -> (done: Result<(), RawError>)
    ensures
        identified.op == 0 && identified.closed ==> done == Err::<(), RawError>(RawError::Auth),
        !(identified.op == 0 && identified.closed) && identified.op != 2 ==> done == Err::<(), RawError>(RawError::Protocol),
        identified.op == 2 ==> done is Ok,
{
    if identified.op == 0 && identified.closed {
        Err(RawError::Auth)
    } else if identified.op != 2 {
        Err(RawError::Protocol)
    } else {
        Ok(())
    }
}

/// Whether a message is the answer (op) to the request with this id.
pub fn is_reply(message: &Incoming, op: u8, request_id: &str) -> (reply: bool)
    ensures
        reply == (message.op == op && string_member(message.data@, "requestId"@) == Some(request_id@)),
{
    if message.op != op {
        return false;
    }
    match read_string_member(message.data.as_str(), "requestId") {
        Some(id) => crate::text::same_str(id.as_str(), request_id),
        None => false,
    }
}

/// The ids a session gives its requests: 1, 2, 3, and so on.
pub struct RequestIds {
    next_id: u64,
}

impl RequestIds {
    /// The number the next id will be.
    pub closed spec fn next(self) -> u64 {
        self.next_id
    }

    pub fn new() -> (ids: RequestIds)
        ensures
            ids.next() == 1,
    {
        RequestIds { next_id: 1 }
    }

    /// The number the next id will be.
    pub fn peek(&self) -> (next: u64)
        ensures
            next == self.next(),
    {
        self.next_id
    }

    /// Take the next id, in decimal.
    pub fn take(&mut self) -> (id: String)
        requires
            old(self).next() < u64::MAX,
        ensures
            id@ == digits(old(self).next() as nat),
            final(self).next() == old(self).next() + 1,
    {
        let id = digits_text(self.next_id);
        self.next_id = self.next_id + 1;
        id
    }
}

/// The identify message (op 1), keys in the order serde_json writes them.
pub open spec fn spec_identify_message(rpc_version: u64, authentication: Option<Seq<char>>) -> Seq<char> {
    "{\"d\":{\"authentication\":"@ + match authentication {
        Some(a) => json_quoted(a),
        None => "null"@,
    } + ",\"rpcVersion\":"@ + digits(rpc_version as nat) + "},\"op\":1}"@
}

/// Write the identify message.
pub fn identify_message(identify: &Identify) -> (message: String)
    ensures
        message@ == spec_identify_message(identify.rpc_version, text_option_view(identify.authentication)),
{
    let mut out = String::from_str("{\"d\":{\"authentication\":");
    match &identify.authentication {
        Some(a) => out.append(quote_json(a.as_str()).as_str()),
        None => out.append("null"),
    }
    out.append(",\"rpcVersion\":");
    out.append(digits_text(identify.rpc_version).as_str());
    out.append("},\"op\":1}");
    out
}

/// A request message (op 6) with its data as JSON text.
pub open spec fn spec_request_message(request_type: Seq<char>, request_id: Seq<char>, data: Seq<char>) -> Seq<char> {
    "{\"d\":{\"requestData\":"@ + data + ",\"requestId\":"@ + json_quoted(request_id) + ",\"requestType\":"@
        + json_quoted(request_type) + "},\"op\":6}"@
}

/// Write a request message.
pub fn request_message(request_type: &str, request_id: &str, data: &str) -> (message: String)
    ensures
        message@ == spec_request_message(request_type@, request_id@, data@),
{
    let mut out = String::from_str("{\"d\":{\"requestData\":");
    out.append(data);
    out.append(",\"requestId\":");
    out.append(quote_json(request_id).as_str());
    out.append(",\"requestType\":");
    out.append(quote_json(request_type).as_str());
    out.append("},\"op\":6}");
    out
}

/// One entry of a batch message.
pub open spec fn spec_batch_entry(call: (Seq<char>, Seq<char>)) -> Seq<char> {
    "{\"requestData\":"@ + call.1 + ",\"requestType\":"@ + json_quoted(call.0) + "}"@
}

/// The entries of a batch message, separated by commas.
pub open spec fn spec_batch_entries(calls: Seq<(Seq<char>, Seq<char>)>) -> Seq<char>
    decreases calls.len(),
{
    if calls.len() == 0 {
        Seq::empty()
    } else if calls.len() == 1 {
        spec_batch_entry(calls[0])
    } else {
        spec_batch_entries(calls.drop_last()) + ","@ + spec_batch_entry(calls.last())
    }
}

/// A batch message (op 8), run in order, halting at the first failure where
/// asked to.
pub open spec fn spec_batch_message(calls: Seq<(Seq<char>, Seq<char>)>, halt_on_failure: bool, request_id: Seq<char>) -> Seq<char> {
    "{\"d\":{\"executionType\":0,\"haltOnFailure\":"@ + (if halt_on_failure {
        "true"@
    } else {
        "false"@
    }) + ",\"requestId\":"@ + json_quoted(request_id) + ",\"requests\":["@ + spec_batch_entries(calls)
        + "]},\"op\":8}"@
}

/// Write a batch message.
pub fn batch_message(calls: &Vec<RawCall>, halt_on_failure: bool, request_id: &str) -> (message: String)
    ensures
        message@ == spec_batch_message(crate::json::calls_view(calls@), halt_on_failure, request_id@),
{
    let ghost cv = crate::json::calls_view(calls@);
    let mut entries = String::new();
    let mut i: usize = 0;
    while i < calls.len()
        invariant
            i <= calls.len(),
            cv == crate::json::calls_view(calls@),
            entries@ == spec_batch_entries(cv.take(i as int)),
        decreases calls.len() - i,
    {
        let call = &calls[i];
        if i > 0 {
            entries.append(",");
        }
        entries.append("{\"requestData\":");
        entries.append(call.request_data.as_str());
        entries.append(",\"requestType\":");
        entries.append(quote_json(call.request_type.as_str()).as_str());
        entries.append("}");
        proof {
            assert(cv.take(i + 1).drop_last() =~= cv.take(i as int));
            assert(cv.take(i + 1).last() == call@);
            if i == 0 {
                assert(cv.take(1)[0] == call@);
            }
        }
        i = i + 1;
    }
    proof {
        assert(cv.take(calls.len() as int) =~= cv);
    }
    let mut out = String::from_str("{\"d\":{\"executionType\":0,\"haltOnFailure\":");
    if halt_on_failure {
        out.append("true");
    } else {
        out.append("false");
    }
    out.append(",\"requestId\":");
    out.append(quote_json(request_id).as_str());
    out.append(",\"requests\":[");
    out.append(entries.as_str());
    out.append("]},\"op\":8}");
    out
}

/// Whether OBS reports success in a request's answer: its `requestStatus`
/// has `result` true.
pub open spec fn request_succeeded(data: Seq<char>) -> bool {
    match json_member(data, "requestStatus"@) {
        Some(status) => bool_member(status, "result"@) == Some(true),
        None => false,
    }
}

/// The code OBS gives a failed request (0 where it gives none).
pub open spec fn request_code(data: Seq<char>) -> i64 {
    match json_member(data, "requestStatus"@) {
        Some(status) => match i64_member(status, "code"@) {
            Some(c) => c,
            None => 0,
        },
        None => 0,
    }
}

/// The comment OBS gives a failed request ("request failed" where it gives none).
pub open spec fn request_comment(data: Seq<char>) -> Seq<char> {
    match json_member(data, "requestStatus"@) {
        Some(status) => match string_member(status, "comment"@) {
            Some(c) => c,
            None => "request failed"@,
        },
        None => "request failed"@,
    }
}

/// The response data of a successful request (an empty object where OBS
/// sends none).
pub open spec fn response_data(data: Seq<char>) -> Seq<char> {
    match json_member(data, "responseData"@) {
        Some(d) => d,
        None => "{}"@,
    }
}

/// Read OBS's answer (op 7 data) to a request: its response data, or the
/// failure OBS reports.
pub fn request_result(request_type: &str, data: &str) -> (result: Result<String, RawError>)
    ensures
        request_succeeded(data@) ==> (result matches Ok(d) && d@ == response_data(data@)),
        !request_succeeded(data@) ==> (result matches Err(RawError::Request { request_type: t, code, comment })
            && t@ == request_type@ && code == request_code(data@) && comment@ == request_comment(data@)),
{
    let (ok, code, comment) = match read_json_member(data, "requestStatus") {
        Some(status) => {
            let ok = match read_bool_member(status.as_str(), "result") {
                Some(b) => b,
                None => false,
            };
            let code: i64 = match read_i64_member(status.as_str(), "code") {
                Some(c) => c,
                None => 0,
            };
            let comment = match read_string_member(status.as_str(), "comment") {
                Some(c) => c,
                None => String::from_str("request failed"),
            };
            (ok, code, comment)
        },
        None => (false, 0i64, String::from_str("request failed")),
    };
    if !ok {
        return Err(RawError::Request { request_type: String::from_str(request_type), code, comment });
    }
    match read_json_member(data, "responseData") {
        Some(d) => Ok(d),
        None => Ok(String::from_str("{}")),
    }
}

/// The ids that one session takes never repeat: a later id is written with
/// other digits than an earlier one.
pub proof fn request_ids_never_repeat(earlier: u64, later: u64)
    requires
        earlier < later,
    ensures
        digits(earlier as nat) != digits(later as nat),
{
    if digits(earlier as nat) == digits(later as nat) {
        crate::text::digits_are_unique(earlier as nat, later as nat);
    }
}

} // verus!
