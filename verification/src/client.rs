//! The client's side of the wire protocol: the requests it sends, how it
//! reads the answers, and how far its upload and download loops have come.

use crate::auth::{current_proof, proof_token};
use crate::server::download_answer;
use crate::session::NonBlocking;
use crate::text::{decimal_digits, parse_decimal, parse_decimal_spec};
use crate::uid::{generate_session_id, is_session_id};
use vstd::prelude::*;
use vstd::slice::slice_subrange;
use vstd::slice::slice_to_vec;
use vstd::string::StringExecFns;

verus! {

/// The number of tunnels that may be under way at once.
pub const CONCURRENT_CONNS: usize = 5;

/// The most bytes that are read from the local socket at once.
pub const MAX_READ_SIZE: usize = 65536;

/// Where the requests go: the forward proxy's address, the name of the server
/// behind it, and the password.
#[derive(Clone, Debug)]
pub struct HostInfo {
    pub proxy_addr: String,
    pub host: String,
    pub password: String,
}

/// The method of a request.
#[derive(Clone, Copy, Debug, PartialEq, Eq, Structural)]
pub enum Method {
    Get,
    Post,
}

/// One request to the server, as far as the tunnel decides it. Every request
/// asks for the connection to be closed afterwards.
pub struct ApiRequest {
    pub method: Method,
    pub url: String,
    pub host: String,
    pub close_connection: bool,
    pub body: Option<Vec<u8>>,
}

/// The address of an endpoint: `http://<proxy>/<api>/<argument>/<suffix>`.
pub open spec fn request_url(
    proxy_addr: Seq<char>,
    api: Seq<char>,
    arg: Seq<char>,
    suffix: Seq<char>,
) -> Seq<char> {
    "http://"@ + proxy_addr + "/"@ + api + "/"@ + arg + "/"@ + suffix
}

/// The request for the endpoint `api` with the argument `arg`, as a POST
/// where there is data to send and as a GET where there is none. Its address
/// ends in a fresh random suffix, so that no cache on the way answers for the
/// server.
pub fn api_request(host_info: &HostInfo, api: &str, arg: &str, data: Option<Vec<u8>>) -> (request:
    ApiRequest)
    ensures
        request.method == (if data is Some {
            Method::Post
        } else {
            Method::Get
        }),
        exists|suffix: Seq<char>|
            is_session_id(suffix) && request.url@ == #[trigger] request_url(
                host_info.proxy_addr@,
                api@,
                arg@,
                suffix,
            ),
        request.host@ == host_info.host@,
        request.close_connection,
        request.body == data,
{
    let cache_once = generate_session_id();
    let method = if data.is_some() {
        Method::Post
    } else {
        Method::Get
    };
    let mut url = "http://".to_owned();
    url.append(host_info.proxy_addr.as_str());
    url.append("/");
    url.append(api);
    url.append("/");
    url.append(arg);
    url.append("/");
    url.append(cache_once.as_str());
    assert(url@ == request_url(host_info.proxy_addr@, api@, arg@, cache_once@));
    ApiRequest {
        method,
        url,
        host: host_info.host.clone(),
        close_connection: true,
        body: data,
    }
}

/// The text that a byte string reads as where every ill-formed part of it is
/// replaced by U+FFFD, as std's `String::from_utf8_lossy` computes it.
pub uninterp spec fn utf8_lossy(bytes: Seq<u8>) -> Seq<char>;

/// `String::from_utf8_lossy` of std, with its result owned: the bytes as
/// text, which depends on the bytes alone.
#[verifier::external_body]
fn lossy_text(bytes: &[u8]) -> (text: String)
    ensures
        text@ == utf8_lossy(bytes@),
{
    String::from_utf8_lossy(bytes).into_owned()
}

/// Reads the server's answer to a request: the body where the status is 200,
/// else the body as the server's error.
pub fn api_response(status: u16, body: Vec<u8>) -> (res: Result<Vec<u8>, String>)
    ensures
        status == 200 ==> res == Ok::<Vec<u8>, String>(body),
        status != 200 ==> res is Err && res->Err_0@ == "error from server: "@ + utf8_lossy(body@),
{
    if status != 200 {
        let mut text = "error from server: ".to_owned();
        let detail = lossy_text(body.as_slice());
        text.append(detail.as_str());
        Err(text)
    } else {
        Ok(body)
    }
}

/// The error where the request could not be made.
pub fn request_failed(detail: &str) -> (text: String)
    ensures
        text@ == "failed to make request: "@ + detail@,
{
    let mut text = "failed to make request: ".to_owned();
    text.append(detail);
    text
}

/// The error where the body of the answer could not be read.
pub fn body_failed(detail: &str) -> (text: String)
    ensures
        text@ == "failed to read body: "@ + detail@,
{
    let mut text = "failed to read body: ".to_owned();
    text.append(detail);
    text
}

/// The request that opens a session, with the proof for the present second.
pub fn establish_session(host_info: &HostInfo) -> (request: ApiRequest)
    ensures
        request.method == Method::Get,
        exists|t: u64, suffix: Seq<char>|
            is_session_id(suffix) && request.url@ == #[trigger] request_url(
                host_info.proxy_addr@,
                "connect"@,
                proof_token(host_info.password@, t),
                suffix,
            ),
        request.host@ == host_info.host@,
        request.close_connection,
        request.body is None,
{
    let proof = current_proof(host_info.password.as_str());
    api_request(host_info, "connect", proof.as_str(), None)
}

/// The session identifier in the answer to the request that opens a session.
pub fn session_id_of(body: &[u8]) -> (id: String)
    ensures
        id@ == utf8_lossy(body@),
{
    lossy_text(body)
}

/// The request that tells the server that the local side has sent its last
/// byte.
pub fn send_eof(host_info: &HostInfo, session_id: &str) -> (request: ApiRequest)
    ensures
        request.method == Method::Get,
        exists|suffix: Seq<char>|
            is_session_id(suffix) && request.url@ == #[trigger] request_url(
                host_info.proxy_addr@,
                "close"@,
                session_id@,
                suffix,
            ),
        request.host@ == host_info.host@,
        request.close_connection,
        request.body is None,
{
    api_request(host_info, "close", session_id, None)
}

/// How an upload goes on after one answer.
#[derive(Clone, Copy, Debug, PartialEq, Eq, Structural)]
pub enum UploadStep {
    /// The whole chunk has been taken.
    Done,
    /// This many bytes of the chunk have been taken so far; the rest is to be
    /// sent again.
    Continue(usize),
}

/// Where an upload of `total` bytes stands after the answer `reply` to a
/// request that sent the bytes from `sent` on: the answer is a count in
/// decimal, of no more bytes than were sent.
pub open spec fn upload_progress(sent: usize, total: usize, reply: Seq<u8>) -> Option<
    UploadStep,
> {
    match parse_decimal_spec(reply) {
        Some(size) => advance(sent, total, size),
        None => None,
    }
}

/// Where an upload of `total` bytes stands when the server has taken `size`
/// more bytes than the `sent` ones before.
pub open spec fn advance(sent: usize, total: usize, size: usize) -> Option<UploadStep> {
    if sent + size == total {
        Some(UploadStep::Done)
    } else if sent + size < total {
        Some(UploadStep::Continue((sent + size) as usize))
    } else {
        None
    }
}

/// Whether an upload that stands at `sent` of `total` bytes is carried to its
/// end by answers with these counts, one request for each.
pub open spec fn completes(sent: usize, total: usize, counts: Seq<usize>) -> bool
    decreases counts.len(),
{
    counts.len() > 0 && match advance(sent, total, counts[0]) {
        Some(UploadStep::Done) => counts.len() == 1,
        Some(UploadStep::Continue(next)) => completes(next, total, counts.skip(1)),
        None => false,
    }
}

/// The bytes that the server takes from the requests of an upload that
/// stands at `sent`: of each request, which sends the chunk from where the
/// upload stands, as many as its answer counts.
pub open spec fn delivered(chunk: Seq<u8>, sent: int, counts: Seq<usize>) -> Seq<u8>
    decreases counts.len(),
{
    if counts.len() == 0 {
        Seq::empty()
    } else {
        chunk.skip(sent).take(counts[0] as int) + delivered(
            chunk,
            sent + counts[0],
            counts.skip(1),
        )
    }
}

/// An upload that is carried to its end has handed the server every byte of
/// the chunk that was still to be sent, once and in order.
pub proof fn lemma_upload_delivers(chunk: Seq<u8>, sent: usize, counts: Seq<usize>)
    requires
        sent <= chunk.len() <= usize::MAX,
        completes(sent, chunk.len() as usize, counts),
    ensures
        delivered(chunk, sent as int, counts) == chunk.skip(sent as int),
    decreases counts.len(),
{
    let total = chunk.len() as usize;
    let first = chunk.skip(sent as int).take(counts[0] as int);
    match advance(sent, total, counts[0]) {
        Some(UploadStep::Done) => {
            assert(counts.skip(1).len() == 0);
            assert(delivered(chunk, sent + counts[0], counts.skip(1)) =~= Seq::<u8>::empty());
            assert(first =~= chunk.skip(sent as int));
        },
        Some(UploadStep::Continue(next)) => {
            lemma_upload_delivers(chunk, next, counts.skip(1));
            assert(first + chunk.skip(next as int) =~= chunk.skip(sent as int));
        },
        None => {},
    }
}

/// The client reads from the server's answer to an upload the count that the
/// server put there.
pub proof fn lemma_upload_answer_is_read(sent: usize, total: usize, size: usize)
    ensures
        upload_progress(sent, total, decimal_digits(size as nat)) == advance(sent, total, size),
{
    crate::text::lemma_decimal_round_trip(size);
}

/// The part of a chunk that the server has not taken yet.
pub fn remaining(chunk: &[u8], sent: usize) -> (rest: Vec<u8>)
    requires
        sent <= chunk@.len(),
    ensures
        rest@ == chunk@.skip(sent as int),
{
    let rest = slice_to_vec(slice_subrange(chunk, sent, chunk.len()));
    assert(rest@ =~= chunk@.skip(sent as int));
    rest
}

/// The request that sends the part of `chunk` that the server has not taken
/// yet.
pub fn upload_request(host_info: &HostInfo, session_id: &str, chunk: &[u8], sent: usize) -> (request:
    ApiRequest)
    requires
        sent <= chunk@.len(),
    ensures
        request.method == Method::Post,
        exists|suffix: Seq<char>|
            is_session_id(suffix) && request.url@ == #[trigger] request_url(
                host_info.proxy_addr@,
                "upload"@,
                session_id@,
                suffix,
            ),
        request.host@ == host_info.host@,
        request.close_connection,
        request.body is Some && request.body->Some_0@ == chunk@.skip(sent as int),
{
    api_request(host_info, "upload", session_id, Some(remaining(chunk, sent)))
}

/// Reads the answer to an upload and says how the upload goes on. An answer
/// that is no count, or that counts more bytes than were sent, ends the
/// tunnel with an error.
pub fn upload_chunk(sent: usize, total: usize, reply: &[u8]) -> (res: Result<UploadStep, String>)
    requires
        sent <= total,
    ensures
        match upload_progress(sent, total, reply@) {
            Some(step) => res == Ok::<UploadStep, String>(step),
            None => res is Err && res->Err_0@ == "invalid response"@,
        },
{
    match parse_decimal(reply) {
        Some(size) => {
            if size > total - sent {
                Err("invalid response".to_owned())
            } else if sent + size == total {
                Ok(UploadStep::Done)
            } else {
                Ok(UploadStep::Continue(sent + size))
            }
        },
        None => Err("invalid response".to_owned()),
    }
}

/// How a download goes on after one answer.
pub enum DownloadStep {
    /// Bytes of the backend, to be written to the local socket.
    Data(Vec<u8>),
    /// The backend has sent its last byte: the download is over.
    Eof,
    /// The backend has nothing to read yet: ask again.
    Poll,
}

/// A step of a download over plain values.
pub enum DownloadEvent {
    Data(Seq<u8>),
    Eof,
    Poll,
}

impl View for DownloadStep {
    type V = DownloadEvent;

    open spec fn view(&self) -> DownloadEvent {
        match self {
            DownloadStep::Data(data) => DownloadEvent::Data(data@),
            DownloadStep::Eof => DownloadEvent::Eof,
            DownloadStep::Poll => DownloadEvent::Poll,
        }
    }
}

/// What the body of an answer to a download says: behind a first byte 1 the
/// backend's bytes, or its end where there are none; behind any other first
/// byte that there is nothing yet. An empty body says nothing.
pub open spec fn download_event(body: Seq<u8>) -> Option<DownloadEvent> {
    if body.len() == 0 {
        None
    } else if body[0] != 1 {
        Some(DownloadEvent::Poll)
    } else if body.len() == 1 {
        Some(DownloadEvent::Eof)
    } else {
        Some(DownloadEvent::Data(body.skip(1)))
    }
}

/// The client reads from the server's answer to a download what the server
/// had: the bytes that were read from the backend, as they were; the end of
/// the backend's stream where a read gave no bytes; nothing yet where the
/// read would have had to wait.
pub proof fn lemma_download_answer_is_read(chunk: NonBlocking<Vec<u8>>)
    requires
        !(chunk is Error),
    ensures
        download_answer(chunk) is Ok,
        download_event(download_answer(chunk)->Ok_0) == Some(
            match chunk {
                NonBlocking::Success(data) => if data@.len() == 0 {
                    DownloadEvent::Eof
                } else {
                    DownloadEvent::Data(data@)
                },
                _ => DownloadEvent::Poll,
            },
        ),
{
    match chunk {
        NonBlocking::Success(data) => {
            assert((seq![1u8] + data@).skip(1) =~= data@);
        },
        _ => {},
    }
}

/// The bytes that a run of reads took from the backend before the end of its
/// stream: those of every read that gave some, up to the first that gave none.
pub open spec fn backend_bytes(reads: Seq<NonBlocking<Vec<u8>>>) -> Seq<u8>
    decreases reads.len(),
{
    if reads.len() == 0 {
        Seq::empty()
    } else {
        match reads[0] {
            NonBlocking::Success(data) => if data@.len() == 0 {
                Seq::empty()
            } else {
                data@ + backend_bytes(reads.skip(1))
            },
            _ => backend_bytes(reads.skip(1)),
        }
    }
}

/// The bytes that the client hands to the local socket for a run of answers
/// to downloads: the data of each, until one ends the download.
pub open spec fn forwarded(bodies: Seq<Seq<u8>>) -> Seq<u8>
    decreases bodies.len(),
{
    if bodies.len() == 0 {
        Seq::empty()
    } else {
        match download_event(bodies[0]) {
            Some(DownloadEvent::Data(data)) => data + forwarded(bodies.skip(1)),
            Some(DownloadEvent::Poll) => forwarded(bodies.skip(1)),
            _ => Seq::empty(),
        }
    }
}

/// The body of the server's answer to a download for a read that did not
/// fail.
pub open spec fn answer_body(read: NonBlocking<Vec<u8>>) -> Seq<u8> {
    download_answer(read)->Ok_0
}

/// Through any run of downloads whose reads do not fail, the local socket is
/// handed the backend's bytes up to the end of its stream: all of them, once
/// and in order.
pub proof fn lemma_download_delivers(reads: Seq<NonBlocking<Vec<u8>>>)
    requires
        forall|i: int| 0 <= i < reads.len() ==> !(#[trigger] reads[i] is Error),
    ensures
        forwarded(reads.map_values(|read: NonBlocking<Vec<u8>>| answer_body(read)))
            == backend_bytes(reads),
    decreases reads.len(),
{
    let body_of = |read: NonBlocking<Vec<u8>>| answer_body(read);
    if reads.len() > 0 {
        lemma_download_answer_is_read(reads[0]);
        lemma_download_delivers(reads.skip(1));
        assert(reads.skip(1).map_values(body_of) =~= reads.map_values(body_of).skip(1));
        assert(reads.map_values(body_of)[0] == answer_body(reads[0]));
    }
}

/// The request for the next bytes of the backend.
pub fn download_request(host_info: &HostInfo, session_id: &str) -> (request: ApiRequest)
    ensures
        request.method == Method::Get,
        exists|suffix: Seq<char>|
            is_session_id(suffix) && request.url@ == #[trigger] request_url(
                host_info.proxy_addr@,
                "download"@,
                session_id@,
                suffix,
            ),
        request.host@ == host_info.host@,
        request.close_connection,
        request.body is None,
{
    api_request(host_info, "download", session_id, None)
}

/// Reads the answer to a download and says how the download goes on. An
/// empty body ends the tunnel with an error.
pub fn download_stream(body: &[u8]) -> (res: Result<DownloadStep, String>)
    ensures
        match download_event(body@) {
            Some(event) => res is Ok && res->Ok_0@ == event,
            None => res is Err && res->Err_0@ == "received empty message"@,
        },
{
    if body.len() == 0 {
        Err("received empty message".to_owned())
    } else if body[0] != 1 {
        Ok(DownloadStep::Poll)
    } else if body.len() == 1 {
        Ok(DownloadStep::Eof)
    } else {
        Ok(DownloadStep::Data(remaining(body, 1)))
    }
}

/// Chunks read from a local socket. `T` is the socket's read half, which the
/// caller reads from.
pub struct ReadStream<T> {
    pub reader: T,
    pub buf_size: usize,
}

impl<T> ReadStream<T> {
    pub fn new(reader: T, buf_size: usize) -> (stream: ReadStream<T>)
        ensures
            stream.reader == reader,
            stream.buf_size == buf_size,
    {
        ReadStream { reader, buf_size }
    }

    /// What a read that put `size` bytes into `buffer` yields: the bytes, or
    /// the end of the stream where there are none.
    pub fn poll(&self, buffer: &[u8], size: usize) -> (item: Option<Vec<u8>>)
        requires
            size <= buffer@.len(),
        ensures
            size == 0 ==> item is None,
            size != 0 ==> item is Some && item->Some_0@ == buffer@.take(size as int),
    {
        if size == 0 {
            None
        } else {
            let chunk = slice_to_vec(slice_subrange(buffer, 0, size));
            assert(chunk@ =~= buffer@.take(size as int));
            Some(chunk)
        }
    }
}

/// Chunks on their way to a local socket, at most one of them waiting. `T` is
/// the socket's write half, which the caller writes to.
pub struct WriteSink<T> {
    pub writer: T,
    pub cur_buf: Option<Vec<u8>>,
}

impl<T> WriteSink<T> {
    /// The bytes that are waiting to be written, if any.
    pub open spec fn pending(&self) -> Option<Seq<u8>> {
        match self.cur_buf {
            Some(buf) => Some(buf@),
            None => None,
        }
    }

    pub fn new(writer: T) -> (sink: WriteSink<T>)
        ensures
            sink.writer == writer,
            sink.pending() is None,
    {
        WriteSink { writer, cur_buf: None }
    }

    /// The bytes to hand to the socket next.
    pub fn waiting(&self) -> (buf: Option<&[u8]>)
        ensures
            buf is Some <==> self.pending() is Some,
            buf is Some ==> buf->Some_0@ == self.pending()->Some_0,
    {
        match &self.cur_buf {
            Some(buf) => Some(buf.as_slice()),
            None => None,
        }
    }

    /// Takes in that the socket took the first `size` of the waiting bytes:
    /// the others go on waiting, if there are any.
    pub fn attempt_write(&mut self, size: usize)
        requires
            old(self).pending() is Some,
            size <= old(self).pending()->Some_0.len(),
        ensures
            final(self).writer == old(self).writer,
            final(self).pending() == (if size == old(self).pending()->Some_0.len() {
                None
            } else {
                Some(old(self).pending()->Some_0.skip(size as int))
            }),
    {
        let buf = self.cur_buf.take().unwrap();
        if size == buf.len() {
            self.cur_buf = None;
        } else {
            self.cur_buf = Some(remaining(buf.as_slice(), size));
        }
    }

    /// Takes a chunk to be written, where none is waiting; else hands it
    /// back.
    pub fn start_send(&mut self, item: Vec<u8>) -> (refused: Option<Vec<u8>>)
        ensures
            final(self).writer == old(self).writer,
            old(self).pending() is None ==> refused is None && final(self).pending() == Some(item@),
            old(self).pending() is Some ==> refused == Some(item) && final(self).pending() == old(
                self,
            ).pending(),
    {
        if self.cur_buf.is_some() {
            Some(item)
        } else {
            self.cur_buf = Some(item);
            None
        }
    }
}

} // verus!
