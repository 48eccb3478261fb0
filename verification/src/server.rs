use vstd::prelude::*;
use crate::challenge::{Challenge, SOLUTION_SIZE};
use crate::codec::{block_frame, decode_block, encode_block, encode_text, parse_block, text_frame};
use crate::corpus::{is_row, select_response, REJECTION};
use crate::protocol::Event;
use crate::server_error::ServerError;

verus! {

/// Where one connection stands. A connection only ever moves down this list.
#[derive(Debug)]
pub enum ServerState {
    /// The connection was accepted; nothing has been sent.
    Accepted,
    /// The challenge was handed out to be written.
    ChallengeSent { challenge: Challenge },
    /// The challenge is on the wire; the solution was asked for.
    AwaitingSolution { challenge: Challenge },
    /// The solution arrived and is to be checked.
    Verified { challenge: Challenge, solution: [u8; SOLUTION_SIZE] },
    /// The response was handed out to be written.
    ResponseSent,
    /// The connection is over.
    Closed,
}

/// What the code that owns the socket is to do next.
#[derive(Debug)]
pub enum ServerAction {
    /// Write all of these bytes, then report `Written`.
    Write(Vec<u8>),
    /// Read exactly this many bytes, then report them as `Received`; a
    /// stream that ends before that is a failure.
    ReadExact(usize),
    /// Nothing to do outside: report `Ready`.
    Continue,
    /// Close the connection; the session ended as given.
    Close(Result<(), ServerError>),
}

impl ServerState {
    /// The place of a state in the order in which a connection passes
    /// through the states.
    pub open spec fn rank(self) -> nat {
        match self {
            ServerState::Accepted => 0,
            ServerState::ChallengeSent { .. } => 1,
            ServerState::AwaitingSolution { .. } => 2,
            ServerState::Verified { .. } => 3,
            ServerState::ResponseSent => 4,
            ServerState::Closed => 5,
        }
    }
}

/// Whether `bytes` is the wire form of a response that may be given: of the
/// rejection text where the solution was not accepted, of one of the rows
/// where it was.
pub open spec fn is_response_frame(accepted: bool, rows: Seq<String>, bytes: Seq<u8>) -> bool {
    exists|text: Seq<char>|
        #[trigger] text_frame(text) == bytes && if accepted {
            is_row(rows, text)
        } else {
            text == REJECTION@
        }
}

/// The session ends with `error`.
pub open spec fn aborts_with(next: ServerState, action: ServerAction, error: ServerError) -> bool {
    next == ServerState::Closed && action == ServerAction::Close(Err(error))
}

/// The steps that a connection may take: from `state`, on `event`, to `next`
/// with `action`. Two things are left open, both drawn at random: the bytes
/// of the challenge, and which row answers an accepted solution.
pub open spec fn server_transition(
    state: ServerState,
    event: Event,
    rows: Seq<String>,
    next: ServerState,
    action: ServerAction,
) -> bool {
    match (state, event) {
        (ServerState::Accepted, Event::Ready) => {
            &&& next matches ServerState::ChallengeSent { challenge }
            &&& action matches ServerAction::Write(bytes)
            &&& bytes@ == block_frame(challenge.bytes())
        },
        (ServerState::ChallengeSent { challenge }, Event::Written) => {
            &&& next == ServerState::AwaitingSolution { challenge }
            &&& action == ServerAction::ReadExact(SOLUTION_SIZE)
        },
        (ServerState::AwaitingSolution { challenge }, Event::Received(buffer)) => {
            match parse_block(buffer@) {
                Some(block) => {
                    &&& next matches ServerState::Verified { challenge: kept, solution }
                    &&& kept == challenge
                    &&& solution@ == block
                    &&& action == ServerAction::Continue
                },
                None => aborts_with(next, action, ServerError::Deserialize),
            }
        },
        (ServerState::Verified { challenge, solution }, Event::Ready) => {
            if challenge.accepts(solution@) && rows.len() == 0 {
                aborts_with(next, action, ServerError::DataSelectionError)
            } else {
                &&& next == ServerState::ResponseSent
                &&& action matches ServerAction::Write(bytes)
                &&& is_response_frame(challenge.accepts(solution@), rows, bytes@)
            }
        },
        (ServerState::ResponseSent, Event::Written) => {
            &&& next == ServerState::Closed
            &&& action == ServerAction::Close(Ok(()))
        },
        _ => aborts_with(next, action, ServerError::Communication),
    }
}

/// Takes one step of a connection: given where it stands and what was
/// reported, says where it stands next and what is to be done. An event that
/// the state does not wait for, a failure among them, ends the session with
/// a communication error.
pub fn server_step(state: ServerState, event: Event, rows: &Vec<String>) -> (moved: (
    ServerState,
    ServerAction,
))
    ensures
        server_transition(state, event, rows@, moved.0, moved.1),
{
    match (state, event) {
        (ServerState::Accepted, Event::Ready) => {
            let challenge = Challenge::new_rand();
            match encode_block(&challenge.challenge()) {
                Ok(bytes) => (ServerState::ChallengeSent { challenge }, ServerAction::Write(bytes)),
                Err(error) => (ServerState::Closed, ServerAction::Close(Err(error))),
            }
        },
        (ServerState::ChallengeSent { challenge }, Event::Written) => (
            ServerState::AwaitingSolution { challenge },
            ServerAction::ReadExact(SOLUTION_SIZE),
        ),
        (ServerState::AwaitingSolution { challenge }, Event::Received(buffer)) => {
            match decode_block(buffer.as_slice()) {
                Ok(solution) => (
                    ServerState::Verified { challenge, solution },
                    ServerAction::Continue,
                ),
                Err(error) => (ServerState::Closed, ServerAction::Close(Err(error))),
            }
        },
        (ServerState::Verified { challenge, solution }, Event::Ready) => {
            let accepted = challenge.check_solution(&solution);
            match select_response(accepted, rows) {
                Ok(text) => match encode_text(text.as_str()) {
                    Ok(bytes) => (ServerState::ResponseSent, ServerAction::Write(bytes)),
                    Err(error) => (ServerState::Closed, ServerAction::Close(Err(error))),
                },
                Err(error) => (ServerState::Closed, ServerAction::Close(Err(error))),
            }
        },
        (ServerState::ResponseSent, Event::Written) => (
            ServerState::Closed,
            ServerAction::Close(Ok(())),
        ),
        _ => (ServerState::Closed, ServerAction::Close(Err(ServerError::Communication))),
    }
}

/// A connection never moves backwards and never stays where it is, until it
/// is closed; once closed it stays closed.
pub proof fn lemma_server_moves_forward(
    state: ServerState,
    event: Event,
    rows: Seq<String>,
    next: ServerState,
    action: ServerAction,
)
    requires
        server_transition(state, event, rows, next, action),
    ensures
        state !is Closed ==> state.rank() < next.rank(),
        state is Closed ==> next is Closed,
{
}

} // verus!
