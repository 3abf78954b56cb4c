//! The wire format. A frame is a four-byte big-endian length followed by
//! that many payload bytes. A payload is a one-byte tag followed by the
//! message's text fields; each text field is a four-byte big-endian byte
//! count followed by the text's UTF-8 bytes.
//!
//! Request tags: `Get` 0 (key), `Put` 1 (key, value), `Remove` 2 (key).
//! Response tags: `Success` 0, then 0 for no value or 1 and the value; `Failure` 1
//! and the message.
use vstd::prelude::*;
use vstd::utf8::{decode_utf8, encode_utf8, valid_utf8};

use crate::error::KvsError;

verus! {

broadcast use vstd::utf8::group_utf8_lib;

/// The largest payload a frame may carry; a larger declared length is
/// taken as a corrupt stream.
pub const MAX_FRAME_LEN: usize = 16_777_216;

pub const TAG_GET: u8 = 0;
pub const TAG_PUT: u8 = 1;
pub const TAG_REMOVE: u8 = 2;
pub const TAG_SUCCESS: u8 = 0;
pub const TAG_FAILURE: u8 = 1;
pub const TAG_NONE: u8 = 0;
pub const TAG_SOME: u8 = 1;

/// A request from a client to the server.
#[derive(Debug, Clone, PartialEq, Eq)]
pub enum Request {
    Get { key: String },
    Put { key: String, value: String },
    Remove { key: String },
}

/// The server's answer to one request.
#[derive(Debug, Clone, PartialEq, Eq)]
pub enum Response {
    /// Success; `Get` carries the value found, if any.
    Success(Option<String>),
    /// A failure, described in words.
    Failure(String),
}

/// What a request means, with its texts as sequences of characters.
pub enum RequestView {
    Get { key: Seq<char> },
    Put { key: Seq<char>, value: Seq<char> },
    Remove { key: Seq<char> },
}

/// What a response means, with its texts as sequences of characters.
pub enum ResponseView {
    Success(Option<Seq<char>>),
    Failure(Seq<char>),
}

impl View for Request {
    type V = RequestView;

    open spec fn view(&self) -> RequestView {
        match self {
            Request::Get { key } => RequestView::Get { key: key@ },
            Request::Put { key, value } => RequestView::Put { key: key@, value: value@ },
            Request::Remove { key } => RequestView::Remove { key: key@ },
        }
    }
}

impl View for Response {
    type V = ResponseView;

    open spec fn view(&self) -> ResponseView {
        match self {
            Response::Success(Some(v)) => ResponseView::Success(Some(v@)),
            Response::Success(None) => ResponseView::Success(None),
            Response::Failure(m) => ResponseView::Failure(m@),
        }
    }
}

/// The four big-endian bytes of `n`.
pub open spec fn u32_bytes(n: u32) -> Seq<u8> {
    seq![(n >> 24u32) as u8, (n >> 16u32) as u8, (n >> 8u32) as u8, n as u8]
}

/// The big-endian number held in `b[at..at + 4]`.
pub open spec fn u32_at(b: Seq<u8>, at: int) -> u32 {
    ((b[at] as u32) << 24u32) | ((b[at + 1] as u32) << 16u32) | ((b[at + 2] as u32) << 8u32) | (
    b[at + 3] as u32)
}

/// A text field: the byte count of the text's UTF-8 form, then that form.
pub open spec fn text_field(s: Seq<char>) -> Seq<u8> {
    u32_bytes(encode_utf8(s).len() as u32) + encode_utf8(s)
}

pub open spec fn request_payload(r: RequestView) -> Seq<u8> {
    match r {
        RequestView::Get { key } => seq![TAG_GET] + text_field(key),
        RequestView::Put { key, value } => seq![TAG_PUT] + text_field(key) + text_field(value),
        RequestView::Remove { key } => seq![TAG_REMOVE] + text_field(key),
    }
}

pub open spec fn response_payload(r: ResponseView) -> Seq<u8> {
    match r {
        ResponseView::Success(None) => seq![TAG_SUCCESS, TAG_NONE],
        ResponseView::Success(Some(v)) => seq![TAG_SUCCESS, TAG_SOME] + text_field(v),
        ResponseView::Failure(m) => seq![TAG_FAILURE] + text_field(m),
    }
}

/// A payload preceded by its length.
pub open spec fn frame_of(payload: Seq<u8>) -> Seq<u8> {
    u32_bytes(payload.len() as u32) + payload
}

/// The text field starting at `at`, and where it ends.
pub open spec fn parse_text(b: Seq<u8>, at: int) -> Option<(Seq<char>, int)> {
    if 0 <= at && at + 4 <= b.len() {
        let end = at + 4 + u32_at(b, at) as int;
        if end <= b.len() && valid_utf8(b.subrange(at + 4, end)) {
            Some((decode_utf8(b.subrange(at + 4, end)), end))
        } else {
            None
        }
    } else {
        None
    }
}

/// The key that a request names.
pub open spec fn key_of(q: RequestView) -> Seq<char> {
    match q {
        RequestView::Get { key } => key,
        RequestView::Put { key, value } => key,
        RequestView::Remove { key } => key,
    }
}

/// A request is valid when its key is not empty.
pub open spec fn request_valid(q: RequestView) -> bool {
    key_of(q).len() > 0
}

/// The request that a payload holds, if it holds exactly one and it is
/// valid.
pub open spec fn parse_request(b: Seq<u8>) -> Option<RequestView> {
    match parse_request_fields(b) {
        Some(q) => if request_valid(q) {
            Some(q)
        } else {
            None
        },
        None => None,
    }
}

/// The request that a payload holds, if it holds exactly one.
pub open spec fn parse_request_fields(b: Seq<u8>) -> Option<RequestView> {
    if b.len() == 0 {
        None
    } else if b[0] == TAG_GET || b[0] == TAG_REMOVE {
        match parse_text(b, 1) {
            Some((key, end)) => if end == b.len() {
                if b[0] == TAG_GET {
                    Some(RequestView::Get { key })
                } else {
                    Some(RequestView::Remove { key })
                }
            } else {
                None
            },
            None => None,
        }
    } else if b[0] == TAG_PUT {
        match parse_text(b, 1) {
            Some((key, mid)) => match parse_text(b, mid) {
                Some((value, end)) => if end == b.len() {
                    Some(RequestView::Put { key, value })
                } else {
                    None
                },
                None => None,
            },
            None => None,
        }
    } else {
        None
    }
}

/// The response that a payload holds, if it holds exactly one.
pub open spec fn parse_response(b: Seq<u8>) -> Option<ResponseView> {
    if b.len() == 2 && b[0] == TAG_SUCCESS && b[1] == TAG_NONE {
        Some(ResponseView::Success(None))
    } else if b.len() >= 2 && b[0] == TAG_SUCCESS && b[1] == TAG_SOME {
        match parse_text(b, 2) {
            Some((v, end)) => if end == b.len() {
                Some(ResponseView::Success(Some(v)))
            } else {
                None
            },
            None => None,
        }
    } else if b.len() >= 1 && b[0] == TAG_FAILURE {
        match parse_text(b, 1) {
            Some((m, end)) => if end == b.len() {
                Some(ResponseView::Failure(m))
            } else {
                None
            },
            None => None,
        }
    } else {
        None
    }
}

/// How far the bytes buffered from a stream make up a frame.
#[derive(Debug, Clone, Copy, PartialEq, Eq)]
pub enum FrameState {
    /// The frame is not complete yet.
    NeedMore,
    /// The declared length exceeds `MAX_FRAME_LEN`: the stream is corrupt.
    TooLong,
    /// The first frame fills `buf[0..end]`; its payload is `buf[4..end]`.
    Ready { end: usize },
}

pub open spec fn frame_state(b: Seq<u8>) -> FrameState {
    if b.len() < 4 {
        FrameState::NeedMore
    } else if u32_at(b, 0) as int > MAX_FRAME_LEN {
        FrameState::TooLong
    } else if b.len() < 4 + u32_at(b, 0) as int {
        FrameState::NeedMore
    } else {
        FrameState::Ready { end: (4 + u32_at(b, 0) as int) as usize }
    }
}

proof fn lemma_u32_round_trip(n: u32)
    ensures
        u32_at(u32_bytes(n), 0) == n,
{
    let b = u32_bytes(n);
    assert(b[0] == (n >> 24u32) as u8 && b[1] == (n >> 16u32) as u8 && b[2] == (n >> 8u32) as u8
        && b[3] == n as u8);
    assert(((((n >> 24u32) as u8) as u32) << 24u32) | ((((n >> 16u32) as u8) as u32) << 16u32) | (
    (((n >> 8u32) as u8) as u32) << 8u32) | ((n as u8) as u32) == n) by (bit_vector);
}

/// Reads the big-endian number at `b[at..at + 4]`.
fn read_u32(b: &[u8], at: usize) -> (r: u32)
    requires
        at + 4 <= b@.len(),
    ensures
        r == u32_at(b@, at as int),
{
    ((b[at] as u32) << 24u32) | ((b[at + 1] as u32) << 16u32) | ((b[at + 2] as u32) << 8u32) | (
    b[at + 3] as u32)
}

/// Appends the four big-endian bytes of `n`.
fn push_u32(out: &mut Vec<u8>, n: u32)
    ensures
        final(out)@ == old(out)@ + u32_bytes(n),
{
    out.push((n >> 24u32) as u8);
    out.push((n >> 16u32) as u8);
    out.push((n >> 8u32) as u8);
    out.push(n as u8);
    assert(final(out)@ =~= old(out)@ + u32_bytes(n));
}

/// Appends the bytes of `src`.
fn push_bytes(out: &mut Vec<u8>, src: &[u8])
    ensures
        final(out)@ == old(out)@ + src@,
{
    let mut i: usize = 0;
    while i < src.len()
        invariant
            i <= src@.len(),
            out@ == old(out)@ + src@.subrange(0, i as int),
        decreases src@.len() - i,
    {
        out.push(src[i]);
        i = i + 1;
        assert(out@ =~= old(out)@ + src@.subrange(0, i as int));
    }
    assert(src@.subrange(0, i as int) =~= src@);
}

/// Appends `s` as a text field.
fn push_text(out: &mut Vec<u8>, s: &String)
    requires
        encode_utf8(s@).len() <= MAX_FRAME_LEN,
    ensures
        final(out)@ == old(out)@ + text_field(s@),
{
    let bytes = s.as_str().as_bytes();
    push_u32(out, bytes.len() as u32);
    push_bytes(out, bytes);
    assert(final(out)@ =~= old(out)@ + text_field(s@));
}

/// The byte count of the UTF-8 form of `s`.
fn text_len(s: &String) -> (r: usize)
    ensures
        r == encode_utf8(s@).len(),
{
    s.as_str().as_bytes().len()
}

/// Relies on `std::str::from_utf8`: it accepts exactly the well-formed UTF-8
/// byte strings, and the text it gives back is what those bytes encode.
#[verifier::external_body]
fn utf8_text(b: &[u8]) -> (r: Option<String>)
    ensures
        r is Some <==> valid_utf8(b@),
        r matches Some(s) ==> s@ == decode_utf8(b@),
{
    match std::str::from_utf8(b) {
        Ok(s) => Some(s.to_string()),
        Err(_) => None,
    }
}

/// Reads the text field starting at `b[at]`.
fn read_text(b: &[u8], at: usize) -> (r: Option<(String, usize)>)
    ensures
        match r {
            Some((s, end)) => parse_text(b@, at as int) == Some((s@, end as int)),
            None => parse_text(b@, at as int) is None,
        },
{
    if at > b.len() || b.len() - at < 4 {
        return None;
    }
    let n = read_u32(b, at);
    if n as usize > b.len() - at - 4 {
        return None;
    }
    let end = at + 4 + n as usize;
    let field = &b[at + 4..end];
    match utf8_text(field) {
        Some(s) => Some((s, end)),
        None => None,
    }
}

/// Wraps a payload into a frame.
fn frame(payload: Vec<u8>) -> (r: Result<Vec<u8>, KvsError>)
    ensures
        payload@.len() <= MAX_FRAME_LEN <==> r is Ok,
        r matches Ok(b) ==> b@ == frame_of(payload@),
        r matches Err(e) ==> e == KvsError::FrameTooLarge,
{
    if payload.len() > MAX_FRAME_LEN {
        return Err(KvsError::FrameTooLarge);
    }
    let mut out: Vec<u8> = Vec::new();
    push_u32(&mut out, payload.len() as u32);
    push_bytes(&mut out, payload.as_slice());
    Ok(out)
}

/// Where the first frame among the buffered bytes `buf` ends, if it is all
/// there.
pub fn next_frame(buf: &[u8]) -> (r: FrameState)
    ensures
        r == frame_state(buf@),
{
    if buf.len() < 4 {
        return FrameState::NeedMore;
    }
    let n = read_u32(buf, 0);
    if n as usize > MAX_FRAME_LEN {
        FrameState::TooLong
    } else if buf.len() - 4 < n as usize {
        FrameState::NeedMore
    } else {
        FrameState::Ready { end: 4 + n as usize }
    }
}

/// Reads the text field at `b[at..]` when the payload after it is `rest`.
proof fn lemma_parse_text_field(pre: Seq<u8>, s: Seq<char>, rest: Seq<u8>)
    requires
        encode_utf8(s).len() <= MAX_FRAME_LEN,
    ensures
        parse_text(pre + text_field(s) + rest, pre.len() as int) == Some(
            (s, pre.len() + text_field(s).len() as int),
        ),
{
    let e = encode_utf8(s);
    let h = u32_bytes(e.len() as u32);
    let b = pre + text_field(s) + rest;
    let at = pre.len() as int;
    lemma_u32_round_trip(e.len() as u32);
    assert(b[at] == h[0] && b[at + 1] == h[1] && b[at + 2] == h[2] && b[at + 3] == h[3]);
    assert(u32_at(b, at) == u32_at(h, 0));
    assert(b.subrange(at + 4, at + 4 + e.len()) =~= e);
}

/// Round trip for requests: the frame of a valid request that fits in a frame is
/// complete on its own whatever follows it on the stream, and its payload
/// reads back as the same request.
pub proof fn lemma_request_round_trip(r: RequestView, rest: Seq<u8>)
    requires
        request_valid(r),
        request_payload(r).len() <= MAX_FRAME_LEN,
    ensures
        ({
            let f = frame_of(request_payload(r));
            &&& frame_state(f + rest) == FrameState::Ready { end: f.len() as usize }
            &&& parse_request((f + rest).subrange(4, f.len() as int)) == Some(r)
        }),
{
    let p = request_payload(r);
    let f = frame_of(p);
    lemma_frame_prefix(p, rest);
    assert((f + rest).subrange(4, f.len() as int) =~= p);
    match r {
        RequestView::Get { key } => {
            lemma_parse_text_field(seq![TAG_GET], key, Seq::empty());
            assert(seq![TAG_GET] + text_field(key) + Seq::empty() =~= p);
        },
        RequestView::Put { key, value } => {
            lemma_parse_text_field(seq![TAG_PUT], key, text_field(value));
            lemma_parse_text_field(seq![TAG_PUT] + text_field(key), value, Seq::empty());
            assert(seq![TAG_PUT] + text_field(key) + text_field(value) + Seq::empty() =~= p);
        },
        RequestView::Remove { key } => {
            lemma_parse_text_field(seq![TAG_REMOVE], key, Seq::empty());
            assert(seq![TAG_REMOVE] + text_field(key) + Seq::empty() =~= p);
        },
    }
}

/// Round trip for responses, in the same sense as for requests.
pub proof fn lemma_response_round_trip(r: ResponseView, rest: Seq<u8>)
    requires
        response_payload(r).len() <= MAX_FRAME_LEN,
    ensures
        ({
            let f = frame_of(response_payload(r));
            &&& frame_state(f + rest) == FrameState::Ready { end: f.len() as usize }
            &&& parse_response((f + rest).subrange(4, f.len() as int)) == Some(r)
        }),
{
    let p = response_payload(r);
    let f = frame_of(p);
    lemma_frame_prefix(p, rest);
    assert((f + rest).subrange(4, f.len() as int) =~= p);
    match r {
        ResponseView::Success(None) => {},
        ResponseView::Success(Some(v)) => {
            lemma_parse_text_field(seq![TAG_SUCCESS, TAG_SOME], v, Seq::empty());
            assert(seq![TAG_SUCCESS, TAG_SOME] + text_field(v) + Seq::empty() =~= p);
        },
        ResponseView::Failure(m) => {
            lemma_parse_text_field(seq![TAG_FAILURE], m, Seq::empty());
            assert(seq![TAG_FAILURE] + text_field(m) + Seq::empty() =~= p);
        },
    }
}

/// A frame's header, read back, gives its payload's length.
proof fn lemma_frame_prefix(p: Seq<u8>, rest: Seq<u8>)
    requires
        p.len() <= MAX_FRAME_LEN,
    ensures
        frame_state(frame_of(p) + rest) == (FrameState::Ready { end: (4 + p.len()) as usize }),
{
    let h = u32_bytes(p.len() as u32);
    let b = frame_of(p) + rest;
    lemma_u32_round_trip(p.len() as u32);
    assert(b[0] == h[0] && b[1] == h[1] && b[2] == h[2] && b[3] == h[3]);
    assert(u32_at(b, 0) == u32_at(h, 0));
}

impl Request {
    /// The frame that carries this request. It fails with `EmptyKey` on an
    /// empty key, and else with `FrameTooLarge` where the payload would
    /// exceed `MAX_FRAME_LEN`.
    pub fn encode(&self) -> (r: Result<Vec<u8>, KvsError>)
        ensures
            request_valid(self@) && request_payload(self@).len() <= MAX_FRAME_LEN <==> r is Ok,
            r matches Ok(b) ==> b@ == frame_of(request_payload(self@)),
            !request_valid(self@) ==> r == Err::<Vec<u8>, KvsError>(KvsError::EmptyKey),
            request_valid(self@) && r is Err ==> r == Err::<Vec<u8>, KvsError>(
                KvsError::FrameTooLarge,
            ),
    {
        if self.key().is_empty() {
            return Err(KvsError::EmptyKey);
        }
        let mut p: Vec<u8> = Vec::new();
        match self {
            Request::Get { key } => {
                if text_len(key) > MAX_FRAME_LEN {
                    return Err(KvsError::FrameTooLarge);
                }
                p.push(TAG_GET);
                push_text(&mut p, key);
            },
            Request::Put { key, value } => {
                if text_len(key) > MAX_FRAME_LEN || text_len(value) > MAX_FRAME_LEN {
                    return Err(KvsError::FrameTooLarge);
                }
                p.push(TAG_PUT);
                push_text(&mut p, key);
                push_text(&mut p, value);
            },
            Request::Remove { key } => {
                if text_len(key) > MAX_FRAME_LEN {
                    return Err(KvsError::FrameTooLarge);
                }
                p.push(TAG_REMOVE);
                push_text(&mut p, key);
            },
        }
        assert(p@ =~= request_payload(self@));
        frame(p)
    }

    /// The key that this request names.
    pub fn key(&self) -> (r: &str)
        ensures
            r@ == key_of(self@),
    {
        match self {
            Request::Get { key } => key.as_str(),
            Request::Put { key, value } => key.as_str(),
            Request::Remove { key } => key.as_str(),
        }
    }

    /// The request that a frame's payload holds; one with an empty key is
    /// malformed.
    pub fn decode(payload: &[u8]) -> (r: Result<Request, KvsError>)
        ensures
            r matches Ok(q) ==> parse_request(payload@) == Some(q@),
            r is Err ==> (parse_request(payload@) is None),
            r matches Err(e) ==> e == KvsError::Malformed,
    {
        let q = Request::decode_fields(payload)?;
        if q.key().is_empty() {
            return Err(KvsError::Malformed);
        }
        Ok(q)
    }

    fn decode_fields(payload: &[u8]) -> (r: Result<Request, KvsError>)
        ensures
            r matches Ok(q) ==> parse_request_fields(payload@) == Some(q@),
            r is Err ==> (parse_request_fields(payload@) is None),
            r matches Err(e) ==> e == KvsError::Malformed,
    {
        if payload.len() == 0 {
            return Err(KvsError::Malformed);
        }
        let tag = payload[0];
        if tag == TAG_GET || tag == TAG_REMOVE {
            match read_text(payload, 1) {
                Some((key, end)) => {
                    if end != payload.len() {
                        Err(KvsError::Malformed)
                    } else if tag == TAG_GET {
                        Ok(Request::Get { key })
                    } else {
                        Ok(Request::Remove { key })
                    }
                },
                None => Err(KvsError::Malformed),
            }
        } else if tag == TAG_PUT {
            match read_text(payload, 1) {
                Some((key, mid)) => match read_text(payload, mid) {
                    Some((value, end)) => {
                        if end != payload.len() {
                            Err(KvsError::Malformed)
                        } else {
                            Ok(Request::Put { key, value })
                        }
                    },
                    None => Err(KvsError::Malformed),
                },
                None => Err(KvsError::Malformed),
            }
        } else {
            Err(KvsError::Malformed)
        }
    }
}

impl Response {
    /// The frame that carries this response; it fails only where the payload
    /// would exceed `MAX_FRAME_LEN`.
    pub fn encode(&self) -> (r: Result<Vec<u8>, KvsError>)
        ensures
            response_payload(self@).len() <= MAX_FRAME_LEN <==> r is Ok,
            r matches Ok(b) ==> b@ == frame_of(response_payload(self@)),
            r matches Err(e) ==> e == KvsError::FrameTooLarge,
    {
        let mut p: Vec<u8> = Vec::new();
        match self {
            Response::Success(None) => {
                p.push(TAG_SUCCESS);
                p.push(TAG_NONE);
            },
            Response::Success(Some(v)) => {
                if text_len(v) > MAX_FRAME_LEN {
                    return Err(KvsError::FrameTooLarge);
                }
                p.push(TAG_SUCCESS);
                p.push(TAG_SOME);
                push_text(&mut p, v);
            },
            Response::Failure(m) => {
                if text_len(m) > MAX_FRAME_LEN {
                    return Err(KvsError::FrameTooLarge);
                }
                p.push(TAG_FAILURE);
                push_text(&mut p, m);
            },
        }
        assert(p@ =~= response_payload(self@));
        frame(p)
    }

    /// The response that a frame's payload holds.
    pub fn decode(payload: &[u8]) -> (r: Result<Response, KvsError>)
        ensures
            r matches Ok(q) ==> parse_response(payload@) == Some(q@),
            r is Err ==> (parse_response(payload@) is None),
            r matches Err(e) ==> e == KvsError::Malformed,
    {
        let n = payload.len();
        if n == 2 && payload[0] == TAG_SUCCESS && payload[1] == TAG_NONE {
            Ok(Response::Success(None))
        } else if n >= 2 && payload[0] == TAG_SUCCESS && payload[1] == TAG_SOME {
            match read_text(payload, 2) {
                Some((v, end)) => if end == n {
                    Ok(Response::Success(Some(v)))
                } else {
                    Err(KvsError::Malformed)
                },
                None => Err(KvsError::Malformed),
            }
        } else if n >= 1 && payload[0] == TAG_FAILURE {
            match read_text(payload, 1) {
                Some((m, end)) => if end == n {
                    Ok(Response::Failure(m))
                } else {
                    Err(KvsError::Malformed)
                },
                None => Err(KvsError::Malformed),
            }
        } else {
            Err(KvsError::Malformed)
        }
    }
}

} // verus!
