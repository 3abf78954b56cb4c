//! The server's side of a connection: each request is answered from the
//! storage engine, and a connection's buffered bytes are turned into the
//! next thing to do with it.
use vstd::prelude::*;
use vstd::utf8::{encode_utf8, is_ascii_chars};

use crate::engine::KvsEngine;
use crate::error::KvsError;
use crate::wire::{
    frame_state, key_of, parse_request, response_payload, FrameState, Request, RequestView, Response,
    ResponseView, MAX_FRAME_LEN, next_frame,
};

verus! {

broadcast use vstd::utf8::group_utf8_lib;

/// The answer that a request gets from a store whose engine does not fail.
pub open spec fn answer(m: Map<Seq<char>, Seq<char>>, q: RequestView) -> ResponseView {
    match q {
        RequestView::Get { key } => ResponseView::Success(
            if m.contains_key(key) {
                Some(m[key])
            } else {
                None
            },
        ),
        RequestView::Put { key, value } => ResponseView::Success(None),
        RequestView::Remove { key } => if m.contains_key(key) {
            ResponseView::Success(None)
        } else {
            ResponseView::Failure(KvsError::KeyNotFound.text())
        },
    }
}

/// The store after a request, where the engine does not fail.
pub open spec fn after(m: Map<Seq<char>, Seq<char>>, q: RequestView) -> Map<Seq<char>, Seq<char>> {
    match q {
        RequestView::Get { key } => m,
        RequestView::Put { key, value } => m.insert(key, value),
        RequestView::Remove { key } => m.remove(key),
    }
}

/// `resp` answers `q` on a store that went from `before` to `now`: either as
/// a working engine does, or with a failure that left the store as it was.
pub open spec fn served(
    before: Map<Seq<char>, Seq<char>>,
    now: Map<Seq<char>, Seq<char>>,
    q: RequestView,
    resp: ResponseView,
) -> bool {
    ||| resp == answer(before, q) && now == after(before, q)
    ||| resp is Failure && now == before
}

/// The answer to a `Get`, from what the engine's lookup gave: the value
/// found, or the engine's error as a `Failure` with its message.
pub fn lookup_response(r: Result<Option<String>, KvsError>) -> (resp: Response)
    ensures
        r matches Ok(v) ==> resp == Response::Success(v),
        r matches Err(e) ==> resp@ == ResponseView::Failure(e.text()),
{
    match r {
        Ok(v) => Response::Success(v),
        Err(e) => Response::Failure(e.message()),
    }
}

/// The answer to a `Put` or a `Remove`, from what the engine's change gave:
/// success without a value, or the engine's error as a `Failure` with its
/// message.
pub fn change_response(r: Result<(), KvsError>) -> (resp: Response)
    ensures
        r is Ok ==> resp == Response::Success(None),
        r matches Err(e) ==> resp@ == ResponseView::Failure(e.text()),
{
    match r {
        Ok(()) => Response::Success(None),
        Err(e) => Response::Failure(e.message()),
    }
}

/// The answer "Key not found" fits in a frame.
proof fn lemma_not_found_fits()
    ensures
        response_payload(ResponseView::Failure(KvsError::KeyNotFound.text())).len()
            <= MAX_FRAME_LEN,
{
    reveal_strlit("Key not found");
    let m = KvsError::KeyNotFound.text();
    assert(is_ascii_chars(m));
    assert(encode_utf8(m).len() == m.len());
}

/// What `step` owes for an answered request `q`, beyond `served`: a working
/// engine's answer wherever that answer fits in a frame, and "Key not found"
/// for a missing key.
pub open spec fn answered<E: KvsEngine>(
    before: &KvsServer<E>,
    now: &KvsServer<E>,
    q: RequestView,
    resp: ResponseView,
) -> bool {
    &&& before.reliable() ==> now.reliable() && now.store() == after(before.store(), q)
    &&& before.reliable() && response_payload(answer(before.store(), q)).len() <= MAX_FRAME_LEN
        ==> resp == answer(before.store(), q)
    &&& q is Remove && !before.store().contains_key(key_of(q)) ==> resp == answer(
        before.store(),
        q,
    ) && now.store() == before.store()
}

/// What to do next with a connection.
pub enum ConnStep {
    /// Read more bytes: no whole frame is buffered yet.
    Wait,
    /// Send `frame`, which carries `response`, and drop the first `consumed`
    /// buffered bytes.
    Reply { response: Response, frame: Vec<u8>, consumed: usize },
    /// The stream is corrupt: close the connection without an answer.
    Close,
}

/// The server of a key-value store over a given storage engine.
pub struct KvsServer<E: KvsEngine> {
    engine: E,
}

/// A failure that stands in for a response too large for a frame.
fn too_large() -> (r: Response)
    ensures
        r@ is Failure,
        response_payload(r@).len() <= MAX_FRAME_LEN,
{
    let m = "Response too large".to_owned();
    proof {
        reveal_strlit("Response too large");
        assert(is_ascii_chars(m@));
        assert(encode_utf8(m@).len() == m@.len());
    }
    Response::Failure(m)
}

impl<E: KvsEngine> KvsServer<E> {
    /// The keys and values of the engine's store.
    pub closed spec fn store(&self) -> Map<Seq<char>, Seq<char>> {
        self.engine.store()
    }

    /// The engine cannot fail.
    pub closed spec fn reliable(&self) -> bool {
        self.engine.reliable()
    }

    /// A server over `engine`.
    pub fn new(engine: E) -> (r: Self)
        ensures
            r.store() == engine.store(),
            r.reliable() == engine.reliable(),
    {
        KvsServer { engine }
    }

    /// Answers one request from the engine. A working engine gives the
    /// answer of `answer`; a failure of the engine becomes a `Failure`
    /// response with the error's message (see `lookup_response` and
    /// `change_response`); removing a missing key always gives
    /// "Key not found".
    pub fn handle(&mut self, req: Request) -> (r: Response)
        ensures
            served(old(self).store(), final(self).store(), req@, r@),
            old(self).reliable() ==> r@ == answer(old(self).store(), req@) && final(self).store()
                == after(old(self).store(), req@) && final(self).reliable(),
            req@ is Remove && !old(self).store().contains_key(key_of(req@)) ==> r@ == answer(
                old(self).store(),
                req@,
            ) && final(self).store() == old(self).store(),
    {
        match req {
            Request::Get { key } => lookup_response(self.engine.get(key)),
            Request::Put { key, value } => change_response(self.engine.set(key, value)),
            Request::Remove { key } => change_response(self.engine.remove(key)),
        }
    }

    /// Takes the bytes buffered from a connection and says what to do next:
    /// wait for more, answer the first frame's request, or close a corrupt
    /// stream. Only an answered request can change the store.
    pub fn step(&mut self, buf: &[u8]) -> (r: ConnStep)
        ensures
            frame_state(buf@) is NeedMore <==> r is Wait,
            r is Reply <==> (frame_state(buf@) matches FrameState::Ready { end } && parse_request(
                buf@.subrange(4, end as int),
            ) is Some),
            !(r is Reply) ==> final(self).store() == old(self).store(),
            r matches ConnStep::Reply { response, frame, consumed } ==> ({
                &&& frame_state(buf@) == (FrameState::Ready { end: consumed })
                &&& served(
                    old(self).store(),
                    final(self).store(),
                    parse_request(buf@.subrange(4, consumed as int))->Some_0,
                    response@,
                )
                &&& response_payload(response@).len() <= MAX_FRAME_LEN
                &&& frame@ == crate::wire::frame_of(response_payload(response@))
                &&& answered(
                    old(self),
                    final(self),
                    parse_request(buf@.subrange(4, consumed as int))->Some_0,
                    response@,
                )
            }),
    {
        match next_frame(buf) {
            FrameState::NeedMore => ConnStep::Wait,
            FrameState::TooLong => ConnStep::Close,
            FrameState::Ready { end } => {
                let req = match Request::decode(&buf[4..end]) {
                    Ok(q) => q,
                    Err(_) => {
                        return ConnStep::Close;
                    },
                };
                proof {
                    lemma_not_found_fits();
                }
                let response = self.handle(req);
                match response.encode() {
                    Ok(frame) => ConnStep::Reply { response, frame, consumed: end },
                    Err(_) => {
                        let response = too_large();
                        match response.encode() {
                            Ok(frame) => ConnStep::Reply { response, frame, consumed: end },
                            Err(_) => ConnStep::Close,
                        }
                    },
                }
            },
        }
    }
}

/// Set then get: once a working engine has set `key` to `value`, a `Get` of
/// `key` answers `value`, whichever connection sends it.
pub proof fn lemma_put_then_get(m: Map<Seq<char>, Seq<char>>, key: Seq<char>, value: Seq<char>)
    ensures
        answer(after(m, RequestView::Put { key, value }), RequestView::Get { key })
            == ResponseView::Success(Some(value)),
{
}

/// A `Get` leaves the store as it was, so asking again without a write in
/// between gives the same answer.
pub proof fn lemma_get_idempotent(m: Map<Seq<char>, Seq<char>>, key: Seq<char>)
    ensures
        after(m, RequestView::Get { key }) == m,
        answer(after(m, RequestView::Get { key }), RequestView::Get { key }) == answer(
            m,
            RequestView::Get { key },
        ),
{
}

/// A request touches only the key it names: every other key keeps its
/// presence, its value and the answer a `Get` of it receives.
pub proof fn lemma_other_keys_untouched(m: Map<Seq<char>, Seq<char>>, q: RequestView, other: Seq<char>)
    requires
        other != key_of(q),
    ensures
        after(m, q).contains_key(other) == m.contains_key(other),
        m.contains_key(other) ==> after(m, q)[other] == m[other],
        answer(after(m, q), RequestView::Get { key: other }) == answer(
            m,
            RequestView::Get { key: other },
        ),
{
}

/// Of two writes to one key, a later `Get` sees the value of the one the
/// engine applied last, so two concurrent writes leave one of their two
/// values and nothing else.
pub proof fn lemma_last_write_wins(
    m: Map<Seq<char>, Seq<char>>,
    key: Seq<char>,
    first: Seq<char>,
    second: Seq<char>,
)
    ensures
        answer(
            after(after(m, RequestView::Put { key, value: first }), RequestView::Put { key, value: second }),
            RequestView::Get { key },
        ) == ResponseView::Success(Some(second)),
{
}

} // verus!
