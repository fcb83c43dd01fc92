//! The server's side of the wire protocol: which endpoint a request path
//! names, what each endpoint does to the session table, and what it answers.

use crate::auth::{check_proof_at, proof_accepted, unix_time};
use crate::session::{
    classify_spec, IoFailure, NonBlocking, Session, SessionCall, SessionReply, SessionState,
};
use crate::table::{
    fresh, has_id, is_first_match, stale, stays_after, stepped, unique_ids, SessionTable,
};
use crate::text::{append_bytes, chars_of, decimal_bytes, decimal_digits, str_equal, string_of};
use crate::uid::{generate_session_id, is_session_id};
use vstd::prelude::*;
use vstd::slice::slice_to_vec;
use vstd::string::StringExecFns;
use vstd::utf8::*;

verus! {

/// The number of characters of `s` before its first `/`, or all of them.
pub open spec fn head_len(s: Seq<char>) -> nat
    decreases s.len(),
{
    if s.len() == 0 || s[0] == '/' {
        0
    } else {
        1 + head_len(s.skip(1))
    }
}

/// What a request path asks for, over plain text.
pub enum Route {
    Connect(Seq<char>),
    Upload(Seq<char>),
    Download(Seq<char>),
    Close(Seq<char>),
    Invalid,
}

/// Reads a path of the form `/<api>/<argument>`, with or without more behind
/// a further `/`. The path starts with `/`; the endpoint runs up to the next
/// `/`, which has to be there; the argument runs up to the `/` after that, or
/// to the end.
pub open spec fn route(path: Seq<char>) -> Route {
    let after_root = path.skip(1);
    let api_len = head_len(after_root);
    let after_api = after_root.skip(api_len as int + 1);
    if path.len() == 0 || path[0] != '/' || api_len == after_root.len() {
        Route::Invalid
    } else {
        let api = after_root.take(api_len as int);
        let arg = after_api.take(head_len(after_api) as int);
        if api == "connect"@ {
            Route::Connect(arg)
        } else if api == "upload"@ {
            Route::Upload(arg)
        } else if api == "download"@ {
            Route::Download(arg)
        } else if api == "close"@ {
            Route::Close(arg)
        } else {
            Route::Invalid
        }
    }
}

/// Where the run of characters that starts at `from` and holds no `/` ends.
fn component_end(chars: &Vec<char>, from: usize) -> (to: usize)
    requires
        from <= chars@.len(),
    ensures
        from <= to <= chars@.len(),
        to - from == head_len(chars@.skip(from as int)),
{
    let mut i: usize = from;
    while i < chars.len() && chars[i] != '/'
        invariant
            from <= i <= chars@.len(),
            head_len(chars@.skip(from as int)) == (i - from) + head_len(chars@.skip(i as int)),
        decreases chars@.len() - i,
    {
        assert(chars@.skip(i as int).skip(1) =~= chars@.skip(i + 1));
        i += 1;
    }
    i
}

/// The endpoint that a request names, with its argument.
pub enum RequestInfo {
    Connect(String),
    Upload(String),
    Download(String),
    Close(String),
    Invalid,
}

impl View for RequestInfo {
    type V = Route;

    open spec fn view(&self) -> Route {
        match self {
            RequestInfo::Connect(arg) => Route::Connect(arg@),
            RequestInfo::Upload(arg) => Route::Upload(arg@),
            RequestInfo::Download(arg) => Route::Download(arg@),
            RequestInfo::Close(arg) => Route::Close(arg@),
            RequestInfo::Invalid => Route::Invalid,
        }
    }
}

impl RequestInfo {
    /// Reads the path of a request.
    pub fn from_request(path: &str) -> (info: RequestInfo)
        ensures
            info@ == route(path@),
    {
        let chars = chars_of(path);
        let n = chars.len();
        if n == 0 || chars[0] != '/' {
            return RequestInfo::Invalid;
        }
        let api_end = component_end(&chars, 1);
        if api_end == n {
            return RequestInfo::Invalid;
        }
        let arg_end = component_end(&chars, api_end + 1);
        let api = string_of(&chars, 1, api_end);
        let arg = string_of(&chars, api_end + 1, arg_end);
        proof {
            let after_root = path@.skip(1);
            let api_len = head_len(after_root);
            let after_api = after_root.skip(api_len as int + 1);
            assert(after_api =~= chars@.skip(api_end + 1));
            assert(api@ =~= after_root.take(api_len as int));
            assert(arg@ =~= after_api.take(head_len(after_api) as int));
        }
        if str_equal(api.as_str(), "connect") {
            RequestInfo::Connect(arg)
        } else if str_equal(api.as_str(), "upload") {
            RequestInfo::Upload(arg)
        } else if str_equal(api.as_str(), "download") {
            RequestInfo::Download(arg)
        } else if str_equal(api.as_str(), "close") {
            RequestInfo::Close(arg)
        } else {
            RequestInfo::Invalid
        }
    }
}

/// What an endpoint answers, over plain values: the body of a success, or the
/// text of an error.
pub open spec fn answer_view(answer: Result<Vec<u8>, String>) -> Result<Seq<u8>, Seq<char>> {
    match answer {
        Ok(body) => Ok(body@),
        Err(text) => Err(text@),
    }
}

/// The answer to an upload: the number of bytes that the backend took, in
/// decimal; an error where the write failed or would have had to wait.
pub open spec fn upload_answer(written: NonBlocking<usize>) -> Result<Seq<u8>, Seq<char>> {
    match written {
        NonBlocking::Success(size) => Ok(decimal_digits(size as nat)),
        NonBlocking::Error(failure) => Err("write error: "@ + failure.message@),
        NonBlocking::WouldBlock => Err("blocked"@),
    }
}

/// The answer to a download: the byte 1 and then the chunk, which is empty at
/// the end of the backend's stream; the byte 0 alone where the backend has
/// nothing to read yet; an error where the read failed.
pub open spec fn download_answer(chunk: NonBlocking<Vec<u8>>) -> Result<Seq<u8>, Seq<char>> {
    match chunk {
        NonBlocking::Success(data) => Ok(seq![1u8] + data@),
        NonBlocking::Error(failure) => Err("io error: "@ + failure.message@),
        NonBlocking::WouldBlock => Ok(seq![0u8]),
    }
}

/// The text `prefix` followed by `detail`.
fn with_detail(prefix: &str, detail: &str) -> (text: String)
    ensures
        text@ == prefix@ + detail@,
{
    let mut text = prefix.to_owned();
    text.append(detail);
    text
}

/// Renders the result of a write as the answer to an upload.
pub fn upload_reply(written: NonBlocking<usize>) -> (answer: Result<Vec<u8>, String>)
    ensures
        answer_view(answer) == upload_answer(written),
{
    match written {
        NonBlocking::Success(size) => Ok(decimal_bytes(size as u64)),
        NonBlocking::Error(failure) => Err(with_detail("write error: ", failure.message.as_str())),
        NonBlocking::WouldBlock => Err("blocked".to_owned()),
    }
}

/// Renders the result of a read as the answer to a download.
pub fn download_reply(chunk: NonBlocking<Vec<u8>>) -> (answer: Result<Vec<u8>, String>)
    ensures
        answer_view(answer) == download_answer(chunk),
{
    match chunk {
        NonBlocking::Success(data) => {
            let mut body: Vec<u8> = Vec::new();
            body.push(1u8);
            append_bytes(&mut body, data.as_slice());
            assert(body@ =~= seq![1u8] + data@);
            Ok(body)
        },
        NonBlocking::Error(failure) => Err(with_detail("io error: ", failure.message.as_str())),
        NonBlocking::WouldBlock => {
            let mut body: Vec<u8> = Vec::new();
            body.push(0u8);
            assert(body@ =~= seq![0u8]);
            Ok(body)
        },
    }
}

/// An HTTP response, as far as the tunnel decides it.
pub struct Response {
    pub status: u16,
    pub content_type: String,
    pub body: Vec<u8>,
}

/// Wraps an endpoint's answer: a success is status 200 with the body as
/// binary data, an error is status 400 with its text as the body.
pub fn respond(answer: Result<Vec<u8>, String>) -> (response: Response)
    ensures
        match answer {
            Ok(body) => {
                &&& response.status == 200
                &&& response.content_type@ == "application/octet-stream"@
                &&& response.body@ == body@
            },
            Err(text) => {
                &&& response.status == 400
                &&& response.content_type@ == "text/plain"@
                &&& response.body@ == encode_utf8(text@)
            },
        },
{
    match answer {
        Ok(body) => Response {
            status: 200,
            content_type: "application/octet-stream".to_owned(),
            body,
        },
        Err(text) => Response {
            status: 400,
            content_type: "text/plain".to_owned(),
            body: slice_to_vec(text.as_str().as_bytes()),
        },
    }
}

/// How far around the present second a proof may lie, in seconds.
pub const ALLOWED_DIFF: u64 = 60;

/// The most bytes that one download reads from the backend.
pub const MAX_READ_SIZE: usize = 65536;

/// The state of a tunnel server over plain values.
pub struct ServiceState<S> {
    pub sessions: Seq<Session<S>>,
    pub password: Seq<char>,
    pub allowed_diff: u64,
    pub max_read_size: usize,
}

impl<S> ServiceState<S> {
    /// The password and the limits are those of `other`.
    pub open spec fn same_settings(self, other: ServiceState<S>) -> bool {
        &&& self.password == other.password
        &&& self.allowed_diff == other.allowed_diff
        &&& self.max_read_size == other.max_read_size
    }
}

/// What an endpoint that works on a session answers: the session's answer
/// where the table had the session, else that there is none.
pub open spec fn session_answer<S>(
    sessions: Seq<Session<S>>,
    id: Seq<char>,
    answer: Result<Seq<u8>, Seq<char>>,
) -> Result<Seq<u8>, Seq<char>> {
    if has_id(sessions, id) {
        answer
    } else {
        Err("no session"@)
    }
}

/// The tunnel server: the sessions under way, the password that opens new
/// ones, and its limits.
pub struct TunnelService<S> {
    sessions: SessionTable<S>,
    password: String,
    allowed_diff: u64,
    max_read_size: usize,
}

impl<S> View for TunnelService<S> {
    type V = ServiceState<S>;

    closed spec fn view(&self) -> ServiceState<S> {
        ServiceState {
            sessions: self.sessions.entries(),
            password: self.password@,
            allowed_diff: self.allowed_diff,
            max_read_size: self.max_read_size,
        }
    }
}

impl<S> TunnelService<S> {
    /// A server over the given sessions, with a window of 60 seconds for
    /// proofs and reads of at most 65536 bytes.
    pub fn new(sessions: SessionTable<S>, password: String) -> (service: TunnelService<S>)
        ensures
            service@ == (ServiceState {
                sessions: sessions.entries(),
                password: password@,
                allowed_diff: ALLOWED_DIFF,
                max_read_size: MAX_READ_SIZE,
            }),
    {
        TunnelService {
            sessions,
            password,
            allowed_diff: ALLOWED_DIFF,
            max_read_size: MAX_READ_SIZE,
        }
    }

    /// The most bytes to read from a backend for one download.
    pub fn max_read_size(&self) -> (size: usize)
        ensures
            size == self@.max_read_size,
    {
        self.max_read_size
    }

    /// The number of sessions under way.
    pub fn session_count(&self) -> (n: usize)
        ensures
            n == self@.sessions.len(),
    {
        self.sessions.len()
    }

    /// The backend socket of the session `id`, for the caller to work on
    /// before it reports the outcome.
    pub fn backend(&self, id: &str) -> (stream: Option<&S>)
        ensures
            stream is Some <==> has_id(self@.sessions, id@),
            forall|i: int|
                stream is Some && #[trigger] is_first_match(self@.sessions, id@, i)
                    ==> *stream->Some_0 == self@.sessions[i].link(),
    {
        self.sessions.stream(id)
    }

    /// Decides at the second `now` on a request to open a session: a fresh
    /// identifier where the proof is one of the password's for a second in the
    /// window, else the error.
    pub fn connect_at(&self, proof: &str, now: u64) -> (res: Result<String, String>)
        ensures
            res is Ok <==> proof_accepted(self@.password, proof@, self@.allowed_diff, now),
            res is Ok ==> is_session_id(res->Ok_0@),
            res is Err ==> res->Err_0@ == "incorrect password"@,
    {
        if !check_proof_at(self.password.as_str(), proof, self.allowed_diff, now) {
            Err("incorrect password".to_owned())
        } else {
            Ok(generate_session_id())
        }
    }

    /// Decides on a request to open a session at the present second.
    pub fn connect(&self, proof: &str) -> (res: Result<String, String>)
        ensures
            res is Ok ==> exists|now: u64| #[trigger]
                proof_accepted(self@.password, proof@, self@.allowed_diff, now),
            res is Ok ==> is_session_id(res->Ok_0@),
            res is Err ==> res->Err_0@ == "incorrect password"@,
    {
        let now = unix_time();
        self.connect_at(proof, now)
    }

    /// Takes in the session `id` on the backend connection that was
    /// established at `now`, and answers with the identifier's bytes.
    pub fn register(&mut self, id: String, stream: S, now: u128) -> (answer: Result<Vec<u8>, String>)
        ensures
            final(self)@.same_settings(old(self)@),
            final(self)@.sessions.len() == old(self)@.sessions.len() + 1,
            final(self)@.sessions.drop_last() == old(self)@.sessions,
            final(self)@.sessions.last()@ == (SessionState {
                id: id@,
                sent_eof: false,
                received_eof: false,
                last_used: now,
            }),
            final(self)@.sessions.last().link() == stream,
            unique_ids(old(self)@.sessions) && !has_id(old(self)@.sessions, id@) ==> unique_ids(
                final(self)@.sessions,
            ),
            answer_view(answer) == Ok::<Seq<u8>, Seq<char>>(encode_utf8(id@)),
    {
        let body = slice_to_vec(id.as_str().as_bytes());
        let session = Session::connect(id, stream, now);
        self.sessions.insert(session);
        assert(self.sessions.entries().drop_last() =~= old(self).sessions.entries());
        Ok(body)
    }

    /// The answer where the backend could not be reached.
    pub fn connect_failed(detail: &str) -> (answer: Result<Vec<u8>, String>)
        ensures
            answer_view(answer) == Err::<Seq<u8>, Seq<char>>("connect error: "@ + detail@),
    {
        Err(with_detail("connect error: ", detail))
    }

    /// The answer where the body of an upload could not be read.
    pub fn read_failed(detail: &str) -> (answer: Result<Vec<u8>, String>)
        ensures
            answer_view(answer) == Err::<Seq<u8>, Seq<char>>("read error: "@ + detail@),
    {
        Err(with_detail("read error: ", detail))
    }

    /// Takes in at `now` what writing an upload's body to the backend of the
    /// session `id` reported, and answers the upload.
    pub fn upload(&mut self, id: &str, now: u128, outcome: Result<usize, IoFailure>) -> (answer:
        Result<Vec<u8>, String>)
        ensures
            final(self)@.same_settings(old(self)@),
            stepped(
                old(self)@.sessions,
                final(self)@.sessions,
                id@,
                now,
                SessionCall::Write { count: outcome },
            ),
            unique_ids(old(self)@.sessions) ==> unique_ids(final(self)@.sessions),
            unique_ids(old(self)@.sessions) ==> (has_id(final(self)@.sessions, id@) <==> stays_after(
                old(self)@.sessions,
                id@,
                now,
                SessionCall::Write { count: outcome },
            )),
            answer_view(answer) == session_answer(
                old(self)@.sessions,
                id@,
                upload_answer(classify_spec(outcome)),
            ),
    {
        match self.sessions.with_session(id, now, SessionCall::Write { count: outcome }) {
            Ok(SessionReply::Written(written)) => upload_reply(written),
            Ok(_) => unreached(),
            Err(_) => Self::no_session(),
        }
    }

    /// Takes in at `now` what reading from the backend of the session `id`
    /// reported, and answers the download.
    pub fn download(&mut self, id: &str, now: u128, outcome: Result<Vec<u8>, IoFailure>) -> (answer:
        Result<Vec<u8>, String>)
        ensures
            final(self)@.same_settings(old(self)@),
            stepped(
                old(self)@.sessions,
                final(self)@.sessions,
                id@,
                now,
                SessionCall::Read { data: outcome },
            ),
            unique_ids(old(self)@.sessions) ==> unique_ids(final(self)@.sessions),
            unique_ids(old(self)@.sessions) ==> (has_id(final(self)@.sessions, id@) <==> stays_after(
                old(self)@.sessions,
                id@,
                now,
                SessionCall::Read { data: outcome },
            )),
            answer_view(answer) == session_answer(
                old(self)@.sessions,
                id@,
                download_answer(classify_spec(outcome)),
            ),
    {
        match self.sessions.with_session(id, now, SessionCall::Read { data: outcome }) {
            Ok(SessionReply::Read(chunk)) => download_reply(chunk),
            Ok(_) => unreached(),
            Err(_) => Self::no_session(),
        }
    }

    /// Records at `now` that the write half of the backend of the session
    /// `id` was shut down, and answers the close.
    pub fn close(&mut self, id: &str, now: u128) -> (answer: Result<Vec<u8>, String>)
        ensures
            final(self)@.same_settings(old(self)@),
            stepped(old(self)@.sessions, final(self)@.sessions, id@, now, SessionCall::SendEof),
            unique_ids(old(self)@.sessions) ==> unique_ids(final(self)@.sessions),
            unique_ids(old(self)@.sessions) ==> (has_id(final(self)@.sessions, id@) <==> stays_after(
                old(self)@.sessions,
                id@,
                now,
                SessionCall::SendEof,
            )),
            answer_view(answer) == session_answer(
                old(self)@.sessions,
                id@,
                Ok(encode_utf8("closed stdout"@)),
            ),
    {
        match self.sessions.with_session(id, now, SessionCall::SendEof) {
            Ok(_) => Ok(slice_to_vec("closed stdout".as_bytes())),
            Err(_) => Self::no_session(),
        }
    }

    /// The answer where no session has the identifier that a request names.
    pub fn no_session() -> (answer: Result<Vec<u8>, String>)
        ensures
            answer_view(answer) == Err::<Seq<u8>, Seq<char>>("no session"@),
    {
        Err("no session".to_owned())
    }

    /// The answer to a request that names no endpoint.
    pub fn invalid() -> (answer: Result<Vec<u8>, String>)
        ensures
            answer_view(answer) == Err::<Seq<u8>, Seq<char>>("invalid request"@),
    {
        Err("invalid request".to_owned())
    }

    /// Gives up every session that has timed out at `now` and hands them
    /// back, the newest first.
    pub fn sweep(&mut self, now: u128) -> (removed: Vec<Session<S>>)
        ensures
            final(self)@.same_settings(old(self)@),
            final(self)@.sessions == old(self)@.sessions.filter(fresh(now)),
            removed@ == old(self)@.sessions.filter(stale(now)).reverse(),
            unique_ids(old(self)@.sessions) ==> unique_ids(final(self)@.sessions),
    {
        self.sessions.sweep(now)
    }
}

} // verus!
