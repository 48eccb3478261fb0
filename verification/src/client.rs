use vstd::prelude::*;
use crate::challenge::{
    search_exhausted, search_found, solves, Challenge, CHALLENGE_SIZE, SOLUTION_SIZE,
};
use crate::codec::{block_frame, decode_block, decode_text, encode_block, parse_block, parse_text};
use crate::protocol::Event;

verus! {

/// How many bytes the client asks for in one read of the response.
pub const READ_BYTES_SIZE: usize = 256;

/// Why a client session failed.
#[derive(Debug, Clone, Copy, PartialEq, Eq, Structural)]
pub enum ClientError {
    /// The solution could not be encoded.
    Serialize,
    /// The challenge or the response did not have the expected shape.
    Deserialize,
    /// A read from or a write to the server failed, or something was
    /// reported that the session did not wait for.
    Communication,
    /// No solution was found before the count of attempts ran out.
    SearchExhausted,
}

impl ClientError {
    /// The human-readable description of each kind.
    pub open spec fn description(self) -> Seq<char> {
        match self {
            ClientError::Serialize => "failed to serialize the solution"@,
            ClientError::Deserialize => "failed to deserialize what the server sent"@,
            ClientError::Communication => "failed to exchange data over the socket"@,
            ClientError::SearchExhausted => "failed to find a solution"@,
        }
    }

    /// Renders the error as text.
    pub fn message(&self) -> (text: String)
        ensures
            text@ == self.description(),
    {
        match self {
            ClientError::Serialize => String::from_str("failed to serialize the solution"),
            ClientError::Deserialize => String::from_str(
                "failed to deserialize what the server sent",
            ),
            ClientError::Communication => String::from_str(
                "failed to exchange data over the socket",
            ),
            ClientError::SearchExhausted => String::from_str("failed to find a solution"),
        }
    }
}

/// Where a client session stands. A session only ever moves down this list,
/// but for the reads of the response, which may follow one another.
#[derive(Debug)]
pub enum ClientState {
    /// The connection stands; nothing has been read.
    Connected,
    /// The challenge was asked for.
    AwaitingChallenge,
    /// The solution was handed out to be written; it was found with the
    /// `attempts`-th candidate.
    SolutionSent { attempts: u128 },
    /// The response is being read; `received` is what has come so far.
    AwaitingResponse { received: Vec<u8> },
    /// The session is over.
    Done,
}

/// What the code that owns the socket is to do next.
#[derive(Debug)]
pub enum ClientAction {
    /// Read exactly this many bytes, then report them as `Received`.
    ReadExact(usize),
    /// Read once, at most this many bytes, then report what came as
    /// `Received`; no bytes at all where the stream has ended.
    Read(usize),
    /// Write all of these bytes, then report `Written`.
    Write(Vec<u8>),
    /// The session ended: with the server's response, or with an error.
    Finish(Result<String, ClientError>),
}

impl ClientState {
    /// The place of a state in the order in which a session passes through
    /// the states.
    pub open spec fn rank(self) -> nat {
        match self {
            ClientState::Connected => 0,
            ClientState::AwaitingChallenge => 1,
            ClientState::SolutionSent { .. } => 2,
            ClientState::AwaitingResponse { .. } => 3,
            ClientState::Done => 4,
        }
    }
}

/// The session ends with `error`.
pub open spec fn fails_with(next: ClientState, action: ClientAction, error: ClientError) -> bool {
    next == ClientState::Done && action == ClientAction::Finish(Err(error))
}

/// Whether `bytes` may be sent in answer to `challenge` as found with the
/// `attempts`-th candidate: they are the sixteen bytes of a solution, and
/// that solution is what a search of `attempts` candidates has found.
pub open spec fn is_answer(challenge: Seq<u8>, bytes: Seq<u8>, attempts: u128) -> bool {
    &&& bytes.len() == SOLUTION_SIZE
    &&& solves(challenge, bytes)
    &&& attempts >= 1
    &&& exists|draws: Seq<Seq<u8>>| search_found(challenge, draws, bytes, attempts)
}

/// The steps that a client session may take: from `state`, on `event`, to
/// `next` with `action`. Which solution is sent is left open, as long as it
/// is what a search comes to on the challenge that was received: the first
/// candidate tried that solves it. The session fails over the search only
/// where the search has given up.
pub open spec fn client_transition(
    state: ClientState,
    event: Event,
    next: ClientState,
    action: ClientAction,
) -> bool {
    match (state, event) {
        (ClientState::Connected, Event::Ready) => {
            &&& next == ClientState::AwaitingChallenge
            &&& action == ClientAction::ReadExact(CHALLENGE_SIZE)
        },
        (ClientState::AwaitingChallenge, Event::Received(buffer)) => {
            match parse_block(buffer@) {
                Some(challenge) => {
                    ||| {
                        &&& fails_with(next, action, ClientError::SearchExhausted)
                        &&& exists|draws: Seq<Seq<u8>>| search_exhausted(challenge, draws)
                    }
                    ||| {
                        &&& next matches ClientState::SolutionSent { attempts }
                        &&& action matches ClientAction::Write(bytes)
                        &&& is_answer(challenge, bytes@, attempts)
                    }
                },
                None => fails_with(next, action, ClientError::Deserialize),
            }
        },
        (ClientState::SolutionSent { .. }, Event::Written) => {
            &&& next matches ClientState::AwaitingResponse { received }
            &&& received@ == Seq::<u8>::empty()
            &&& action == ClientAction::Read(READ_BYTES_SIZE)
        },
        (ClientState::AwaitingResponse { received }, Event::Received(chunk)) => {
            if chunk@.len() < READ_BYTES_SIZE {
                &&& next == ClientState::Done
                &&& match parse_text(received@ + chunk@) {
                    Some(text) => action matches ClientAction::Finish(Ok(response)) && response@
                        == text,
                    None => action == ClientAction::Finish(Err(ClientError::Deserialize)),
                }
            } else {
                &&& next matches ClientState::AwaitingResponse { received: grown }
                &&& grown@ == received@ + chunk@
                &&& action == ClientAction::Read(READ_BYTES_SIZE)
            }
        },
        _ => fails_with(next, action, ClientError::Communication),
    }
}

/// Turns what a search came to into what the client sends: the solution
/// encoded for the wire, with the count of attempts, or the error of a search
/// that has given up.
pub fn answer_from_search(found: Option<([u8; SOLUTION_SIZE], u128)>) -> (outcome: Result<
    (Vec<u8>, u128),
    ClientError,
>)
    ensures
        match found {
            Some((solution, tries)) => outcome matches Ok((bytes, attempts)) && bytes@
                == block_frame(solution@) && attempts == tries,
            None => outcome == Err::<(Vec<u8>, u128), ClientError>(ClientError::SearchExhausted),
        },
{
    match found {
        Some((solution, tries)) => match encode_block(&solution) {
            Ok(bytes) => Ok((bytes, tries)),
            Err(_) => Err(ClientError::Serialize),
        },
        None => Err(ClientError::SearchExhausted),
    }
}

/// Solves the challenge that `challenge` holds and encodes the solution for
/// the wire. Gives the encoded solution with the count of candidates that
/// the search tried; fails only where the search has given up.
pub fn answer_challenge(challenge: [u8; CHALLENGE_SIZE]) -> (outcome: Result<
    (Vec<u8>, u128),
    ClientError,
>)
    ensures
        match outcome {
            Ok((bytes, attempts)) => is_answer(challenge@, bytes@, attempts),
            Err(error) => error == ClientError::SearchExhausted && exists|draws: Seq<Seq<u8>>|
                search_exhausted(challenge@, draws),
        },
{
    let challenge = Challenge::new(challenge);
    answer_from_search(challenge.solve())
}

/// Takes one step of a client session: given where it stands and what was
/// reported, says where it stands next and what is to be done. The response
/// is read until a read brings fewer bytes than were asked for, and decoded
/// then. An event that the state does not wait for, a failure among them,
/// ends the session with a communication error.
pub fn client_step(state: ClientState, event: Event) -> (moved: (ClientState, ClientAction))
    ensures
        client_transition(state, event, moved.0, moved.1),
{
    match (state, event) {
        (ClientState::Connected, Event::Ready) => (
            ClientState::AwaitingChallenge,
            ClientAction::ReadExact(CHALLENGE_SIZE),
        ),
        (ClientState::AwaitingChallenge, Event::Received(buffer)) => {
            match decode_block(buffer.as_slice()) {
                Ok(challenge) => match answer_challenge(challenge) {
                    Ok((bytes, attempts)) => (
                        ClientState::SolutionSent { attempts },
                        ClientAction::Write(bytes),
                    ),
                    Err(error) => {
                        proof {
                            let received = parse_block(buffer@)->0;
                            assert(received == challenge@);
                            let draws = choose|draws: Seq<Seq<u8>>|
                                search_exhausted(challenge@, draws);
                            assert(search_exhausted(received, draws));
                        }
                        (ClientState::Done, ClientAction::Finish(Err(error)))
                    },
                },
                Err(_) => (ClientState::Done, ClientAction::Finish(Err(ClientError::Deserialize))),
            }
        },
        (ClientState::SolutionSent { .. }, Event::Written) => (
            ClientState::AwaitingResponse { received: Vec::new() },
            ClientAction::Read(READ_BYTES_SIZE),
        ),
        (ClientState::AwaitingResponse { received }, Event::Received(chunk)) => {
            let mut received = received;
            let mut chunk = chunk;
            let last = chunk.len() < READ_BYTES_SIZE;
            received.append(&mut chunk);
            if last {
                match decode_text(received.as_slice()) {
                    Ok(response) => (ClientState::Done, ClientAction::Finish(Ok(response))),
                    Err(_) => (
                        ClientState::Done,
                        ClientAction::Finish(Err(ClientError::Deserialize)),
                    ),
                }
            } else {
                (ClientState::AwaitingResponse { received }, ClientAction::Read(READ_BYTES_SIZE))
            }
        },
        _ => (ClientState::Done, ClientAction::Finish(Err(ClientError::Communication))),
    }
}

/// A client session never moves backwards; it stays where it is only while
/// it reads the response; once over it stays over.
pub proof fn lemma_client_moves_forward(
    state: ClientState,
    event: Event,
    next: ClientState,
    action: ClientAction,
)
    requires
        client_transition(state, event, next, action),
    ensures
        state.rank() <= next.rank(),
        state.rank() == next.rank() ==> state is AwaitingResponse || state is Done,
{
}

} // verus!
