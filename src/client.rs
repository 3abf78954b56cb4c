//! The client's reading of the server's answers.
use vstd::prelude::*;

use crate::error::KvsError;
use crate::wire::{frame_state, next_frame, parse_response, FrameState, Response};

verus! {

/// What a client does next with the bytes buffered from its connection.
pub enum ClientStep {
    /// Read more bytes: the response frame is not complete yet.
    Wait,
    /// The server's response, held in the first `consumed` buffered bytes.
    Answer { response: Response, consumed: usize },
    /// The stream is corrupt: a frame too long, or a payload that is no
    /// response.
    Fail(KvsError),
}

/// Reads the server's response from the bytes buffered so far.
pub fn client_step(buf: &[u8]) -> (r: ClientStep)
    ensures
        frame_state(buf@) is NeedMore <==> r is Wait,
        r is Answer <==> (frame_state(buf@) matches FrameState::Ready { end } && parse_response(
            buf@.subrange(4, end as int),
        ) is Some),
        r matches ClientStep::Answer { response, consumed } ==> frame_state(buf@) == (
        FrameState::Ready { end: consumed }) && parse_response(buf@.subrange(4, consumed as int))
            == Some(response@),
        frame_state(buf@) is TooLong ==> r == ClientStep::Fail(KvsError::FrameTooLarge),
        r matches ClientStep::Fail(e) ==> e == KvsError::FrameTooLarge || e == KvsError::Malformed,
        r matches ClientStep::Fail(e) && e == KvsError::Malformed ==> (frame_state(buf@) is Ready),
{
    match next_frame(buf) {
        FrameState::NeedMore => ClientStep::Wait,
        FrameState::TooLong => ClientStep::Fail(KvsError::FrameTooLarge),
        FrameState::Ready { end } => match Response::decode(&buf[4..end]) {
            Ok(response) => ClientStep::Answer { response, consumed: end },
            Err(e) => ClientStep::Fail(e),
        },
    }
}

/// The outcome of a `Get`: the value found, if any; a failure reported by
/// the server becomes `KvsError::Server` with its message.
pub fn get_outcome(resp: Response) -> (r: Result<Option<String>, KvsError>)
    ensures
        resp matches Response::Success(v) ==> r == Ok::<Option<String>, KvsError>(v),
        resp matches Response::Failure(m) ==> r == Err::<Option<String>, KvsError>(
            KvsError::Server(m),
        ),
{
    match resp {
        Response::Success(v) => Ok(v),
        Response::Failure(m) => Err(KvsError::Server(m)),
    }
}

/// The outcome of a `Put`: success, or the server's failure as
/// `KvsError::Server`.
pub fn set_outcome(resp: Response) -> (r: Result<(), KvsError>)
    ensures
        resp is Success ==> r == Ok::<(), KvsError>(()),
        resp matches Response::Failure(m) ==> r == Err::<(), KvsError>(KvsError::Server(m)),
{
    match resp {
        Response::Success(_) => Ok(()),
        Response::Failure(m) => Err(KvsError::Server(m)),
    }
}

/// The outcome of a `Remove`: success, or the server's failure as
/// `KvsError::Server`, a missing key included.
pub fn remove_outcome(resp: Response) -> (r: Result<(), KvsError>)
    ensures
        resp is Success ==> r == Ok::<(), KvsError>(()),
        resp matches Response::Failure(m) ==> r == Err::<(), KvsError>(KvsError::Server(m)),
{
    match resp {
        Response::Success(_) => Ok(()),
        Response::Failure(m) => Err(KvsError::Server(m)),
    }
}

} // verus!
