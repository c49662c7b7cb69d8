//! Writing the responses of the slippy map protocol as HTTP responses.

use vstd::prelude::*;
use crate::config::ModuleConfig;
use crate::http::{
    cache_control, cache_control_name, cache_control_value, etag, etag_name, etag_of, expires,
    expires_name, expiry_representable, expiry_seconds, rfc2822_date,
};
use crate::slippy::{
    HttpResponse, ResponseBody, ResponseHeader, ResponseWriteError, SlippyResponse, TileResponse,
    WriteError, WriteOutcome,
};
use crate::tile::{ContentEncoding, MediaType};
use vstd::string::StringSliceAdditionalSpecFns;

verus! {

/// What writing a response is given besides the response: the module
/// configuration and when the request was received.
pub struct WriteContext<'c> {
    pub module_config: &'c ModuleConfig,
    /// When the request was received, in microseconds after the Unix epoch.
    pub request_time: i64,
}

/// Where an HTTP response is written to.
pub trait HttpResponseWriter {
    /// Adds a value to the header `key`.
    fn append_http_header(&mut self, key: &str, value: &str);

    /// Sets the header `key` to `value`.
    fn set_http_header(&mut self, key: &str, value: &str);

    /// Sets the encoding of the content.
    fn set_content_encoding(&mut self, encoding: &ContentEncoding);

    /// Sets the media type of the content.
    fn set_content_type(&mut self, media_type: &MediaType);

    /// Sets the length of the content.
    fn set_content_length(&mut self, length: usize);

    /// Writes a first part of `payload`, as much as the writer takes now,
    /// and gives the number of bytes it took, or a negative error code. It
    /// takes no more than it is handed.
    fn write(&mut self, payload: &[u8]) -> (r: i32)
        ensures
            r <= payload@.len(),
    ;

    /// Sends what was written so far.
    fn flush_response(&mut self) -> Result<(), ResponseWriteError>;
}

/// A call handed to a writer, with what it gave back.
pub enum WriterCall {
    AppendHeader(Seq<char>, Seq<char>),
    SetHeader(Seq<char>, Seq<char>),
    ContentEncoding(ContentEncoding),
    ContentType(MediaType),
    ContentLength(usize),
    Write(Seq<u8>, i32),
    Flush(Result<(), ResponseWriteError>),
}

/// A writer, with the calls handed to it through the recorder, in order.
pub struct ResponseRecorder<W: HttpResponseWriter> {
    writer: W,
    calls: Ghost<Seq<WriterCall>>,
}

impl<W: HttpResponseWriter> ResponseRecorder<W> {
    /// The calls handed to the writer, in order, with what each gave back.
    pub closed spec fn calls(&self) -> Seq<WriterCall> {
        self.calls@
    }

    /// The writer.
    pub closed spec fn sink(&self) -> W {
        self.writer
    }

    /// A recorder of `writer`, which was handed nothing yet.
    pub fn new(writer: W) -> (r: ResponseRecorder<W>)
        ensures
            r.sink() == writer,
            r.calls() == Seq::<WriterCall>::empty(),
    {
        ResponseRecorder { writer, calls: Ghost(Seq::empty()) }
    }

    /// The writer.
    pub fn writer(&self) -> (w: &W)
        ensures
            *w == self.sink(),
    {
        &self.writer
    }

    /// The writer, once the response is written.
    pub fn into_writer(self) -> (w: W)
        ensures
            w == self.sink(),
    {
        self.writer
    }

    /// Adds a value to the header `key`.
    pub fn append_http_header(&mut self, key: &str, value: &str)
        ensures
            final(self).calls() == old(self).calls().push(WriterCall::AppendHeader(key@, value@)),
    {
        self.writer.append_http_header(key, value);
        self.calls = Ghost(self.calls@.push(WriterCall::AppendHeader(key@, value@)));
    }

    /// Sets the header `key` to `value`.
    pub fn set_http_header(&mut self, key: &str, value: &str)
        ensures
            final(self).calls() == old(self).calls().push(WriterCall::SetHeader(key@, value@)),
    {
        self.writer.set_http_header(key, value);
        self.calls = Ghost(self.calls@.push(WriterCall::SetHeader(key@, value@)));
    }

    /// Sets the encoding of the content.
    pub fn set_content_encoding(&mut self, encoding: &ContentEncoding)
        ensures
            final(self).calls() == old(self).calls().push(WriterCall::ContentEncoding(*encoding)),
    {
        self.writer.set_content_encoding(encoding);
        self.calls = Ghost(self.calls@.push(WriterCall::ContentEncoding(*encoding)));
    }

    /// Sets the media type of the content.
    pub fn set_content_type(&mut self, media_type: &MediaType)
        ensures
            final(self).calls() == old(self).calls().push(WriterCall::ContentType(*media_type)),
    {
        self.writer.set_content_type(media_type);
        self.calls = Ghost(self.calls@.push(WriterCall::ContentType(*media_type)));
    }

    /// Sets the length of the content.
    pub fn set_content_length(&mut self, length: usize)
        ensures
            final(self).calls() == old(self).calls().push(WriterCall::ContentLength(length)),
    {
        self.writer.set_content_length(length);
        self.calls = Ghost(self.calls@.push(WriterCall::ContentLength(length)));
    }

    /// Writes a first part of `payload`, as much as the writer takes now,
    /// and gives the number of bytes it took, or a negative error code.
    pub fn write(&mut self, payload: &[u8]) -> (r: i32)
        ensures
            final(self).calls() == old(self).calls().push(WriterCall::Write(payload@, r)),
            r <= payload@.len(),
    {
        let r = self.writer.write(payload);
        self.calls = Ghost(self.calls@.push(WriterCall::Write(payload@, r)));
        r
    }

    /// Writes the whole payload as content, piece by piece, and gives its
    /// length: each write is handed what is left of the payload, a write
    /// that takes nothing is tried again, and the first negative code ends
    /// the writing with that code. An empty payload is not handed to the
    /// writer. A writer that takes nothing `u64::MAX` times in a row is given
    /// up on with the code 0.
    pub fn write_content(&mut self, payload: &[u8]) -> (r: Result<usize, ResponseWriteError>)
        ensures
            content_written(old(self).calls(), final(self).calls(), payload@, r),
            r matches Ok(n) ==> n == payload@.len(),
            r matches Err(e) ==> e.error_code < 0 || e == stalled(),
            payload@.len() == 0 ==> r == Ok::<usize, ResponseWriteError>(0) && final(self).calls() == old(self).calls(),
    {
        let ghost before = self.calls();
        let ghost mut done: Seq<WriterCall> = Seq::empty();
        let length = payload.len();
        let mut position: usize = 0;
        let mut stalls: u64 = 0;
        assert(before + done =~= before);
        while position < length && stalls < u64::MAX
            invariant
                length == payload@.len(),
                before == old(self).calls(),
                position <= length,
                self.calls() == before + done,
                forall|tail: Seq<WriterCall>, r: Result<usize, ResponseWriteError>|
                    #[trigger] writes_from(tail, payload@, position as int, stalls as int, r)
                        ==> writes_from(done + tail, payload@, 0, 0, r),
            decreases length - position, u64::MAX - stalls,
        {
            let rest = &payload[position..length];
            let result = self.write(rest);
            let ghost call = WriterCall::Write(rest@, result);
            let ghost old_position = position as int;
            let ghost old_stalls = stalls as int;
            let ghost old_done = done;
            proof {
                done = done.push(call);
            }
            if result < 0 {
                proof {
                    let e = Err::<usize, ResponseWriteError>(ResponseWriteError { error_code: result });
                    assert(seq![call].drop_first() =~= Seq::<WriterCall>::empty());
                    assert(writes_from(seq![call], payload@, old_position, old_stalls, e));
                    assert(old_done + seq![call] =~= done);
                    assert(self.calls() =~= before + done);
                    law_written_pieces_make_up_the_payload(done, payload@, 0, 0, e);
                    assert((before + done).subrange(0, before.len() as int) =~= before);
                    assert((before + done).subrange(before.len() as int, (before + done).len() as int) =~= done);
                    assert(writes_from(done, payload@, 0, 0, e));
                    assert(content_written(before, self.calls(), payload@, e));
                }
                return Err(ResponseWriteError { error_code: result });
            } else if result == 0 {
                stalls = stalls + 1;
            } else {
                position = position + (result as usize);
                stalls = 0;
            }
            proof {
                assert(self.calls() =~= before + done);
                assert forall|tail: Seq<WriterCall>, r: Result<usize, ResponseWriteError>|
                    #[trigger] writes_from(tail, payload@, position as int, stalls as int, r)
                        implies writes_from(done + tail, payload@, 0, 0, r) by {
                    let longer = seq![call] + tail;
                    assert(longer.drop_first() =~= tail);
                    assert(longer[0] == call);
                    assert(writes_from(longer, payload@, old_position, old_stalls, r));
                    assert(old_done + longer =~= done + tail);
                };
            }
        }
        let r = if position < length {
            Err(ResponseWriteError { error_code: 0 })
        } else {
            Ok(length)
        };
        proof {
            assert(writes_from(Seq::<WriterCall>::empty(), payload@, position as int, stalls as int, r));
            assert(done + Seq::<WriterCall>::empty() =~= done);
            law_written_pieces_make_up_the_payload(done, payload@, 0, 0, r);
            assert((before + done).subrange(0, before.len() as int) =~= before);
            assert((before + done).subrange(before.len() as int, (before + done).len() as int) =~= done);
            if length == 0 {
                assert(done.len() == 0);
                assert(self.calls() =~= before);
            }
        }
        r
    }

    /// Sends what was written so far.
    pub fn flush_response(&mut self) -> (r: Result<(), ResponseWriteError>)
        ensures
            final(self).calls() == old(self).calls().push(WriterCall::Flush(r)),
    {
        let r = self.writer.flush_response();
        self.calls = Ghost(self.calls@.push(WriterCall::Flush(r)));
        r
    }
}

/// The error a writer is given up on with, once it took nothing
/// `u64::MAX` times in a row.
pub open spec fn stalled() -> ResponseWriteError {
    ResponseWriteError { error_code: 0 }
}

/// The calls `calls` write `payload` from `position` on, after `stalls`
/// writes in a row that took nothing, and the writing ends with `r`: each
/// write is handed what is left of the payload; a negative code ends the
/// writing with that code, and otherwise the position moves on by what was
/// taken. The writing ends with the whole length once nothing is left, and
/// with `stalled()` once `u64::MAX` writes in a row took nothing.
pub open spec fn writes_from(
    calls: Seq<WriterCall>,
    payload: Seq<u8>,
    position: int,
    stalls: int,
    r: Result<usize, ResponseWriteError>,
) -> bool
    decreases calls.len(),
{
    if position >= payload.len() {
        calls.len() == 0 && r == Ok::<usize, ResponseWriteError>(payload.len() as usize)
    } else if stalls >= u64::MAX {
        calls.len() == 0 && r == Err::<usize, ResponseWriteError>(stalled())
    } else {
        calls.len() >= 1 && match calls[0] {
            WriterCall::Write(piece, c) => {
                &&& piece == payload.subrange(position, payload.len() as int)
                &&& c <= piece.len()
                &&& if c < 0 {
                    calls.len() == 1 && r == Err::<usize, ResponseWriteError>(ResponseWriteError { error_code: c })
                } else if c == 0 {
                    writes_from(calls.drop_first(), payload, position, stalls + 1, r)
                } else {
                    writes_from(calls.drop_first(), payload, position + c, 0, r)
                }
            },
            _ => false,
        }
    }
}

/// After the calls `before`, the writer was handed the calls that write
/// `payload` as content, which ended with `r`, and nothing else.
pub open spec fn content_written(
    before: Seq<WriterCall>,
    after: Seq<WriterCall>,
    payload: Seq<u8>,
    r: Result<usize, ResponseWriteError>,
) -> bool {
    &&& after.len() >= before.len()
    &&& after.subrange(0, before.len() as int) == before
    &&& writes_from(after.subrange(before.len() as int, after.len() as int), payload, 0, 0, r)
}

/// What the writes among `calls` took, one after the other.
pub open spec fn taken(calls: Seq<WriterCall>) -> Seq<u8>
    decreases calls.len(),
{
    if calls.len() == 0 {
        Seq::empty()
    } else {
        let first = match calls[0] {
            WriterCall::Write(piece, c) => if 0 <= c <= piece.len() {
                piece.subrange(0, c as int)
            } else {
                Seq::empty()
            },
            _ => Seq::empty(),
        };
        first + taken(calls.drop_first())
    }
}

/// A writing from `position` on ends with the whole length or with the
/// writer's own negative code or with `stalled()`; when it ends with the
/// whole length, what the writes took is the rest of the payload.
pub proof fn law_written_pieces_make_up_the_payload(
    calls: Seq<WriterCall>,
    payload: Seq<u8>,
    position: int,
    stalls: int,
    r: Result<usize, ResponseWriteError>,
)
    requires
        0 <= position,
        payload.len() <= usize::MAX,
        writes_from(calls, payload, position, stalls, r),
    ensures
        r matches Ok(n) ==> n == payload.len(),
        r matches Ok(n) ==> position <= payload.len() ==> taken(calls) == payload.subrange(position, payload.len() as int),
        r matches Err(e) ==> e.error_code < 0 || e == stalled(),
        position >= payload.len() ==> calls.len() == 0,
    decreases calls.len(),
{
    if position >= payload.len() {
    } else if stalls >= u64::MAX {
    } else {
        match calls[0] {
            WriterCall::Write(piece, c) => {
                if c < 0 {
                } else if c == 0 {
                    law_written_pieces_make_up_the_payload(calls.drop_first(), payload, position, stalls + 1, r);
                    assert(piece.subrange(0, 0) =~= Seq::<u8>::empty());
                    assert(Seq::<u8>::empty() + taken(calls.drop_first()) =~= taken(calls.drop_first()));
                } else {
                    law_written_pieces_make_up_the_payload(calls.drop_first(), payload, position + c, 0, r);
                    if r is Ok {
                        assert(piece.subrange(0, c as int) =~= payload.subrange(position, position + c));
                        assert(payload.subrange(position, position + c) + payload.subrange(position + c, payload.len() as int)
                            =~= payload.subrange(position, payload.len() as int));
                    }
                }
            },
            _ => {},
        }
    }
}

/// The calls of a writer that takes nothing `k` times and then the whole
/// payload: `k` writes of the payload that took nothing, then one that took it all.
pub open spec fn stalled_then_taken(payload: Seq<u8>, k: nat) -> Seq<WriterCall> {
    Seq::new(k, |i: int| WriterCall::Write(payload, 0i32)).push(WriterCall::Write(payload, payload.len() as i32))
}

/// `call` is a write that took nothing.
pub open spec fn took_nothing(call: WriterCall) -> bool {
    call matches WriterCall::Write(_, c) && c == 0
}

/// The same calls from the same position and stalls end the same way.
pub proof fn lemma_writes_from_ends_once(
    calls: Seq<WriterCall>,
    payload: Seq<u8>,
    position: int,
    stalls: int,
    r1: Result<usize, ResponseWriteError>,
    r2: Result<usize, ResponseWriteError>,
)
    requires
        writes_from(calls, payload, position, stalls, r1),
        writes_from(calls, payload, position, stalls, r2),
    ensures
        r1 == r2,
    decreases calls.len(),
{
    if position >= payload.len() {
    } else if stalls >= u64::MAX {
    } else {
        match calls[0] {
            WriterCall::Write(piece, c) => {
                if c < 0 {
                } else if c == 0 {
                    lemma_writes_from_ends_once(calls.drop_first(), payload, position, stalls + 1, r1, r2);
                } else {
                    lemma_writes_from_ends_once(calls.drop_first(), payload, position + c, 0, r1, r2);
                }
            },
            _ => {},
        }
    }
}

/// From the `j`-th call on, the calls of `stalled_then_taken` write the
/// whole payload after `j` writes that took nothing.
proof fn lemma_stalled_then_taken_from(payload: Seq<u8>, k: nat, j: nat)
    requires
        0 < payload.len() <= i32::MAX,
        k < u64::MAX,
        j <= k,
    ensures
        writes_from(
            stalled_then_taken(payload, k).subrange(j as int, k + 1int),
            payload,
            0,
            j as int,
            Ok::<usize, ResponseWriteError>(payload.len() as usize),
        ),
    decreases k - j,
{
    let calls = stalled_then_taken(payload, k);
    let rest = calls.subrange(j as int, k + 1int);
    assert(payload.subrange(0, payload.len() as int) =~= payload);
    if j == k {
        assert(rest[0] == WriterCall::Write(payload, payload.len() as i32));
        assert(rest.drop_first() =~= Seq::<WriterCall>::empty());
        assert(writes_from(rest.drop_first(), payload, payload.len() as int, 0,
            Ok::<usize, ResponseWriteError>(payload.len() as usize)));
    } else {
        lemma_stalled_then_taken_from(payload, k, j + 1);
        assert(rest[0] == WriterCall::Write(payload, 0i32));
        assert(rest.drop_first() =~= calls.subrange(j + 1int, k + 1int));
    }
}

/// A writer that takes nothing any number of times in a row below
/// `u64::MAX` and then takes the whole payload has written it: that run is a
/// writing of the payload, and whatever writing it is, it ends with the whole
/// length. So the content is written, and not given up on, after fewer than
/// `u64::MAX` writes in a row that took nothing.
pub proof fn law_writing_outlasts_stalls_below_the_limit(
    before: Seq<WriterCall>,
    payload: Seq<u8>,
    k: nat,
    r: Result<usize, ResponseWriteError>,
)
    requires
        0 < payload.len() <= i32::MAX,
        k < u64::MAX,
    ensures
        content_written(before, before + stalled_then_taken(payload, k), payload,
            Ok::<usize, ResponseWriteError>(payload.len() as usize)),
        content_written(before, before + stalled_then_taken(payload, k), payload, r)
            ==> r == Ok::<usize, ResponseWriteError>(payload.len() as usize),
{
    let calls = stalled_then_taken(payload, k);
    let after = before + calls;
    lemma_stalled_then_taken_from(payload, k, 0);
    assert(calls.subrange(0, k + 1int) =~= calls);
    assert(after.subrange(0, before.len() as int) =~= before);
    assert(after.subrange(before.len() as int, after.len() as int) =~= calls);
    if content_written(before, after, payload, r) {
        lemma_writes_from_ends_once(calls, payload, 0, 0, r, Ok::<usize, ResponseWriteError>(payload.len() as usize));
    }
}

/// The last `n` of `calls` are writes that took nothing.
pub open spec fn ends_with_stalls(calls: Seq<WriterCall>, n: int) -> bool {
    &&& calls.len() >= n
    &&& forall|i: int| calls.len() - n <= i < calls.len() ==> took_nothing(#[trigger] calls[i])
}

/// A writing from `position` on, after `stalls` writes in a row that took
/// nothing, that is given up on either took nothing at all, in exactly the
/// writes left below the limit, or ends with `u64::MAX` writes that took nothing.
proof fn lemma_given_up_after_the_limit(
    calls: Seq<WriterCall>,
    payload: Seq<u8>,
    position: int,
    stalls: int,
)
    requires
        0 <= stalls <= u64::MAX,
        writes_from(calls, payload, position, stalls, Err::<usize, ResponseWriteError>(stalled())),
    ensures
        (calls.len() == u64::MAX - stalls && ends_with_stalls(calls, u64::MAX - stalls))
            || ends_with_stalls(calls, u64::MAX as int),
    decreases calls.len(),
{
    if position >= payload.len() {
    } else if stalls >= u64::MAX {
    } else {
        let rest = calls.drop_first();
        match calls[0] {
            WriterCall::Write(piece, c) => {
                if c < 0 {
                } else if c == 0 {
                    lemma_given_up_after_the_limit(rest, payload, position, stalls + 1);
                    if rest.len() == u64::MAX - (stalls + 1) && ends_with_stalls(rest, u64::MAX - (stalls + 1)) {
                        assert forall|i: int| calls.len() - (u64::MAX - stalls) <= i < calls.len() implies
                            took_nothing(#[trigger] calls[i]) by {
                            if i > 0 {
                                assert(calls[i] == rest[i - 1]);
                            } else {
                                assert(calls[0] == WriterCall::Write(piece, c));
                            }
                        }
                    } else {
                        assert forall|i: int| calls.len() - u64::MAX <= i < calls.len() implies
                            took_nothing(#[trigger] calls[i]) by {
                            assert(calls[i] == rest[i - 1]);
                        }
                    }
                } else {
                    lemma_given_up_after_the_limit(rest, payload, position + c, 0);
                    assert forall|i: int| calls.len() - u64::MAX <= i < calls.len() implies
                        took_nothing(#[trigger] calls[i]) by {
                        assert(calls[i] == rest[i - 1]);
                    }
                }
            },
            _ => {},
        }
    }
}

/// Writing gives up on a writer only once it took nothing `u64::MAX` times
/// in a row: a writing that ends with `stalled()` handed the writer at least
/// `u64::MAX` writes, and the last `u64::MAX` of them took nothing.
pub proof fn law_writing_gives_up_only_at_the_stall_limit(
    before: Seq<WriterCall>,
    after: Seq<WriterCall>,
    payload: Seq<u8>,
)
    requires
        content_written(before, after, payload, Err::<usize, ResponseWriteError>(stalled())),
    ensures
        after.len() - before.len() >= u64::MAX,
        forall|i: int| after.len() - u64::MAX <= i < after.len() ==> took_nothing(#[trigger] after[i]),
{
    let calls = after.subrange(before.len() as int, after.len() as int);
    lemma_given_up_after_the_limit(calls, payload, 0, 0);
    assert(ends_with_stalls(calls, u64::MAX as int));
    assert forall|i: int| after.len() - u64::MAX <= i < after.len() implies took_nothing(#[trigger] after[i]) by {
        assert(after[i] == calls[i - before.len()]);
    }
}

/// The names and values of a list of headers.
pub open spec fn headers_view(headers: Seq<(String, String)>) -> Seq<(Seq<char>, Seq<char>)> {
    headers.map_values(|h: (String, String)| (h.0@, h.1@))
}

/// The headers of a layer description with body `body`, requested at `request_time`.
pub open spec fn description_headers(body: Seq<u8>, request_time: i64) -> Seq<(Seq<char>, Seq<char>)> {
    seq![
        (etag_name(), etag_of(body)),
        (cache_control_name(), cache_control_value()),
        (expires_name(), rfc2822_date(expiry_seconds(request_time))),
    ]
}

/// The headers of a statistics report or a tile with body `body`.
pub open spec fn tagged_headers(body: Seq<u8>) -> Seq<(Seq<char>, Seq<char>)> {
    seq![(etag_name(), etag_of(body))]
}

/// The body written for a JSON document `json` under the header: the
/// document when the header asks for JSON, nothing otherwise.
pub open spec fn json_body(header: ResponseHeader, json: &str) -> Seq<u8> {
    if header.mime_type == MediaType::ApplicationJson {
        json.spec_bytes()
    } else {
        Seq::empty()
    }
}

/// The calls that end a response once its content was written with `c`:
/// when it was written, its length and the flush, and `r` is the response
/// with `headers` when the flush succeeded, else the writer's own error;
/// nothing follows a failed content write, whose error is `r`.
pub open spec fn ended(
    rest: Seq<WriterCall>,
    c: Result<usize, ResponseWriteError>,
    headers: Seq<(Seq<char>, Seq<char>)>,
    r: Result<HttpResponse, WriteError>,
) -> bool {
    match c {
        Ok(n) => {
            &&& rest.len() == 2
            &&& rest[0] == WriterCall::ContentLength(n)
            &&& match rest[1] {
                WriterCall::Flush(Ok(())) => {
                    &&& r matches Ok(h)
                    &&& h.status_code == 200
                    &&& h.bytes_written == n
                    &&& headers_view(h.http_headers@) == headers
                },
                WriterCall::Flush(Err(e)) => r == Err::<HttpResponse, WriteError>(WriteError::ResponseWrite(e)),
                _ => false,
            }
        },
        Err(e) => rest.len() == 0 && r == Err::<HttpResponse, WriteError>(WriteError::ResponseWrite(e)),
    }
}

/// The calls that end a response, from the content on: the writes of the
/// body, as `writes_from` describes them, then what `ended` describes.
pub open spec fn wrote_body(tail: Seq<WriterCall>, body: Seq<u8>, headers: Seq<(Seq<char>, Seq<char>)>, r: Result<HttpResponse, WriteError>) -> bool {
    exists|k: int, c: Result<usize, ResponseWriteError>|
        0 <= k <= tail.len()
        && #[trigger] writes_from(tail.subrange(0, k), body, 0, 0, c)
        && ended(tail.subrange(k, tail.len() as int), c, headers, r)
}

/// After the calls `before`, the writer was handed the body and the calls
/// that end a response, as `wrote_body` describes, and nothing else.
pub open spec fn responded(
    before: Seq<WriterCall>,
    after: Seq<WriterCall>,
    body: Seq<u8>,
    headers: Seq<(Seq<char>, Seq<char>)>,
    r: Result<HttpResponse, WriteError>,
) -> bool {
    &&& after.len() >= before.len()
    &&& after.subrange(0, before.len() as int) == before
    &&& wrote_body(after.subrange(before.len() as int, after.len() as int), body, headers, r)
}

/// The media type set for a JSON document: JSON when the header asks for it, none otherwise.
pub open spec fn json_type_calls(header: ResponseHeader) -> Seq<WriterCall> {
    if header.mime_type == MediaType::ApplicationJson {
        seq![WriterCall::ContentType(MediaType::ApplicationJson)]
    } else {
        Seq::empty()
    }
}

/// What a layer description with body `body` hands the writer before its
/// body: the media type, its entity tag, a week's caching and its expiry.
pub open spec fn description_calls(header: ResponseHeader, body: Seq<u8>, request_time: i64) -> Seq<WriterCall> {
    json_type_calls(header) + seq![
        WriterCall::SetHeader(etag_name(), etag_of(body)),
        WriterCall::AppendHeader(cache_control_name(), cache_control_value()),
        WriterCall::SetHeader(expires_name(), rfc2822_date(expiry_seconds(request_time))),
    ]
}

/// What a statistics report with body `body` hands the writer before its
/// body: the media type and its entity tag.
pub open spec fn statistics_calls(header: ResponseHeader, body: Seq<u8>) -> Seq<WriterCall> {
    json_type_calls(header) + seq![WriterCall::SetHeader(etag_name(), etag_of(body))]
}

/// What a tile with body `body` hands the writer before its body: PNG as
/// the media type and its entity tag.
pub open spec fn tile_calls(body: Seq<u8>) -> Seq<WriterCall> {
    seq![WriterCall::ContentType(MediaType::ImagePng), WriterCall::SetHeader(etag_name(), etag_of(body))]
}

/// The body of a tile: the bytes of its range.
pub open spec fn tile_body(tile: TileResponse) -> Seq<u8> {
    tile.tile_ref.bytes().subrange(tile.tile_ref.begin as int, tile.tile_ref.end as int)
}

/// Writing a layer description with the JSON document `json`: the calls of
/// `description_calls`, then the body, and the response as `wrote_body` gives it.
pub open spec fn description_written(
    before: Seq<WriterCall>,
    after: Seq<WriterCall>,
    header: ResponseHeader,
    json: &str,
    request_time: i64,
    r: Result<HttpResponse, WriteError>,
) -> bool {
    let body = json_body(header, json);
    responded(before + description_calls(header, body, request_time), after, body, description_headers(body, request_time), r)
}

/// Writing a statistics report with the JSON document `json`: the calls of
/// `statistics_calls`, then the body, and the response as `wrote_body` gives it.
pub open spec fn statistics_written(
    before: Seq<WriterCall>,
    after: Seq<WriterCall>,
    header: ResponseHeader,
    json: &str,
    r: Result<HttpResponse, WriteError>,
) -> bool {
    let body = json_body(header, json);
    responded(before + statistics_calls(header, body), after, body, tagged_headers(body), r)
}

/// Writing a tile: under a PNG header, the calls of `tile_calls`, then the
/// body, and the response as `wrote_body` gives it; under any other, no call
/// and the refusal of the tile's media type.
pub open spec fn tile_written(
    before: Seq<WriterCall>,
    after: Seq<WriterCall>,
    header: ResponseHeader,
    tile: TileResponse,
    r: Result<HttpResponse, WriteError>,
) -> bool {
    if header.mime_type == MediaType::ImagePng {
        responded(before + tile_calls(tile_body(tile)), after, tile_body(tile), tagged_headers(tile_body(tile)), r)
    } else {
        &&& after == before
        &&& r == Err::<HttpResponse, WriteError>(WriteError::UnsupportedMediaType(tile.tile_ref.media_type))
    }
}

/// The body of a JSON document: its bytes under a JSON header, else nothing;
/// the JSON media type is set for the former.
fn json_text<'a, W: HttpResponseWriter>(header: &ResponseHeader, json: &'a str, writer: &mut ResponseRecorder<W>) -> (body: &'a [u8])
    ensures
        body@ == json_body(*header, json),
        final(writer).calls() == old(writer).calls() + json_type_calls(*header),
{
    let bytes = json.as_bytes();
    match header.mime_type {
        MediaType::ApplicationJson => {
            writer.set_content_type(&MediaType::ApplicationJson);
            bytes
        },
        _ => {
            let empty = &bytes[0..0];
            assert(empty@ =~= Seq::<u8>::empty());
            assert(writer.calls() =~= old(writer).calls() + json_type_calls(*header));
            empty
        },
    }
}

/// Writes the body, then its length and the flush when it was written, and
/// gives the response with `headers`.
fn write_body<W: HttpResponseWriter>(body: &[u8], headers: Vec<(String, String)>, writer: &mut ResponseRecorder<W>) -> (r: Result<HttpResponse, WriteError>)
    ensures
        responded(old(writer).calls(), final(writer).calls(), body@, headers_view(headers@), r),
{
    let ghost before = writer.calls();
    let written = writer.write_content(body);
    let ghost middle = writer.calls();
    let ghost k = middle.len() - before.len();
    let written_length = match written {
        Ok(n) => n,
        Err(e) => {
            let r = Err(WriteError::ResponseWrite(e));
            proof {
                let tail = middle.subrange(before.len() as int, middle.len() as int);
                assert(tail.subrange(0, k) =~= tail);
                assert(tail.subrange(k, tail.len() as int) =~= Seq::<WriterCall>::empty());
                assert(writes_from(tail.subrange(0, k), body@, 0, 0, written));
            }
            return r;
        },
    };
    writer.set_content_length(written_length);
    let flushed = writer.flush_response();
    let r = match flushed {
        Ok(()) => Ok(HttpResponse { status_code: 200, bytes_written: written_length, http_headers: headers }),
        Err(e) => Err(WriteError::ResponseWrite(e)),
    };
    proof {
        let after = writer.calls();
        assert(after.subrange(0, before.len() as int) =~= before);
        let tail = after.subrange(before.len() as int, after.len() as int);
        assert(tail.subrange(0, k) =~= middle.subrange(before.len() as int, middle.len() as int));
        assert(tail.subrange(k, tail.len() as int) =~= seq![
            WriterCall::ContentLength(written_length),
            WriterCall::Flush(flushed),
        ]);
        assert(writes_from(tail.subrange(0, k), body@, 0, 0, written));
    }
    r
}

/// Writes layer descriptions.
pub struct DescriptionWriter {}

impl DescriptionWriter {
    /// Writes a layer description, whose JSON document is `json`: the
    /// document as the body when the header asks for JSON, no body otherwise,
    /// with its entity tag, a week's caching and the expiry a week after the request.
    pub fn write<W: HttpResponseWriter>(context: &WriteContext, header: &ResponseHeader, json: &str, writer: &mut ResponseRecorder<W>) -> (r: Result<HttpResponse, WriteError>)
        requires
            expiry_representable(context.request_time),
        ensures
            description_written(old(writer).calls(), final(writer).calls(), *header, json, context.request_time, r),
    {
        let body = json_text(header, json, writer);
        let mut http_headers: Vec<(String, String)> = Vec::new();

        let digest = etag(body);
        writer.set_http_header("etag", digest.as_str());
        http_headers.push((String::from_str("etag"), digest));

        let cache_age = cache_control();
        writer.append_http_header("cache-control", cache_age.as_str());
        http_headers.push((String::from_str("cache-control"), cache_age));

        let expiry = expires(context.request_time);
        writer.set_http_header("expires", expiry.as_str());
        http_headers.push((String::from_str("expires"), expiry));
        proof {
            reveal_strlit("etag");
            reveal_strlit("cache-control");
            reveal_strlit("expires");
            assert(http_headers@[0].0@ =~= etag_name());
            assert(http_headers@[1].0@ =~= cache_control_name());
            assert(http_headers@[2].0@ =~= expires_name());
            assert(headers_view(http_headers@) =~~= description_headers(body@, context.request_time));
            assert("etag"@ =~= etag_name());
            assert("cache-control"@ =~= cache_control_name());
            assert("expires"@ =~= expires_name());
            assert(writer.calls() =~= old(writer).calls() + description_calls(*header, body@, context.request_time));
        }
        write_body(body, http_headers, writer)
    }
}

/// Writes statistics reports.
pub struct StatisticsWriter {}

impl StatisticsWriter {
    /// Writes a statistics report, whose JSON document is `json`: the
    /// document as the body when the header asks for JSON, no body otherwise,
    /// with its entity tag.
    pub fn write<W: HttpResponseWriter>(context: &WriteContext, header: &ResponseHeader, json: &str, writer: &mut ResponseRecorder<W>) -> (r: Result<HttpResponse, WriteError>)
        ensures
            statistics_written(old(writer).calls(), final(writer).calls(), *header, json, r),
    {
        let body = json_text(header, json, writer);
        let mut http_headers: Vec<(String, String)> = Vec::new();
        let digest = etag(body);
        writer.set_http_header("etag", digest.as_str());
        http_headers.push((String::from_str("etag"), digest));
        proof {
            reveal_strlit("etag");
            assert(http_headers@[0].0@ =~= etag_name());
            assert(headers_view(http_headers@) =~~= tagged_headers(body@));
            assert("etag"@ =~= etag_name());
            assert(writer.calls() =~= old(writer).calls() + statistics_calls(*header, body@));
        }
        write_body(body, http_headers, writer)
    }
}

/// Writes tiles.
pub struct TileWriter {}

impl TileWriter {
    /// Writes a tile when the header asks for PNG, with its entity tag; any
    /// other media type is refused with the media type of the tile, and the
    /// writer is left alone.
    pub fn write<W: HttpResponseWriter>(context: &WriteContext, header: &ResponseHeader, tile: &TileResponse, writer: &mut ResponseRecorder<W>) -> (r: Result<HttpResponse, WriteError>)
        requires
            header.mime_type == MediaType::ImagePng ==> tile.tile_ref.in_bounds(),
        ensures
            tile_written(old(writer).calls(), final(writer).calls(), *header, *tile, r),
            header.mime_type != MediaType::ImagePng ==> *final(writer) == *old(writer),
    {
        match header.mime_type {
            MediaType::ImagePng => {
                let mut http_headers: Vec<(String, String)> = Vec::new();
                writer.set_content_type(&MediaType::ImagePng);
                let raw_bytes = tile.tile_ref.tile_bytes();
                let digest = etag(raw_bytes);
                writer.set_http_header("etag", digest.as_str());
                http_headers.push((String::from_str("etag"), digest));
                proof {
                    reveal_strlit("etag");
                    assert(http_headers@[0].0@ =~= etag_name());
                    assert(headers_view(http_headers@) =~~= tagged_headers(raw_bytes@));
                    assert("etag"@ =~= etag_name());
                    assert(writer.calls() =~= old(writer).calls() + tile_calls(raw_bytes@));
                }
                write_body(raw_bytes, http_headers, writer)
            },
            _ => Err(WriteError::UnsupportedMediaType(tile.tile_ref.media_type.duplicate())),
        }
    }
}

/// Writes any response of the slippy map protocol.
pub struct SlippyResponseWriter {}

impl SlippyResponseWriter {
    /// Writes the response with the writer of its body, and only that one:
    /// `json` is the JSON document of a description or a statistics report,
    /// and is not used for a tile. The outcome is that writer's result.
    pub fn write<W: HttpResponseWriter>(context: &WriteContext, response: &SlippyResponse, json: &str, writer: &mut ResponseRecorder<W>) -> (outcome: WriteOutcome)
        requires
            response.body is Description ==> expiry_representable(context.request_time),
            response.header.mime_type == MediaType::ImagePng ==> (response.body matches ResponseBody::Tile(t)
                ==> t.tile_ref.in_bounds()),
        ensures
            outcome matches WriteOutcome::Processed(r) && match response.body {
                ResponseBody::Description(_) =>
                    description_written(old(writer).calls(), final(writer).calls(), response.header, json, context.request_time, r),
                ResponseBody::Statistics(_) =>
                    statistics_written(old(writer).calls(), final(writer).calls(), response.header, json, r),
                ResponseBody::Tile(t) =>
                    tile_written(old(writer).calls(), final(writer).calls(), response.header, t, r),
            },
    {
        match &response.body {
            ResponseBody::Description(_) => WriteOutcome::Processed(
                DescriptionWriter::write(context, &response.header, json, writer),
            ),
            ResponseBody::Statistics(_) => WriteOutcome::Processed(
                StatisticsWriter::write(context, &response.header, json, writer),
            ),
            ResponseBody::Tile(tile) => WriteOutcome::Processed(
                TileWriter::write(context, &response.header, tile, writer),
            ),
        }
    }
}

} // verus!
