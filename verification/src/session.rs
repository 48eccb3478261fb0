use vstd::prelude::*;
use crate::challenge::Challenge;
use crate::client::{client_transition, ClientAction, ClientState, READ_BYTES_SIZE};
use crate::codec::{lemma_text_round_trip, parse_block, text_frame};
use crate::corpus::{is_row, REJECTION};
use crate::protocol::Event;
use crate::server::{is_response_frame, server_transition, ServerAction, ServerState};

verus! {

/// A client that answers the server's challenge is served a row. Where the
/// server has sent `challenge_bytes`, the client, on receiving them, has
/// sent `solution_bytes`, and the corpus is not empty, the server, on
/// receiving the solution, accepts it and writes one of the rows.
pub proof fn lemma_solving_client_is_served(
    rows: Seq<String>,
    challenge: Challenge,
    challenge_bytes: Vec<u8>,
    answered: ClientState,
    solution_bytes: Vec<u8>,
    verified: ServerState,
    proceed: ServerAction,
    last: ServerState,
    response: ServerAction,
)
    requires
        rows.len() > 0,
        server_transition(
            ServerState::Accepted,
            Event::Ready,
            rows,
            ServerState::ChallengeSent { challenge },
            ServerAction::Write(challenge_bytes),
        ),
        client_transition(
            ClientState::AwaitingChallenge,
            Event::Received(challenge_bytes),
            answered,
            ClientAction::Write(solution_bytes),
        ),
        server_transition(
            ServerState::AwaitingSolution { challenge },
            Event::Received(solution_bytes),
            rows,
            verified,
            proceed,
        ),
        server_transition(verified, Event::Ready, rows, last, response),
    ensures
        verified matches ServerState::Verified { challenge: kept, solution } && kept.accepts(
            solution@,
        ),
        last == ServerState::ResponseSent,
        response matches ServerAction::Write(bytes) && is_response_frame(true, rows, bytes@),
{
    challenge.lemma_bytes_len();
    assert(challenge_bytes@.subrange(0, 16) =~= challenge_bytes@);
    assert(parse_block(challenge_bytes@) == Some(challenge.bytes()));
    assert(solution_bytes@.subrange(0, 16) =~= solution_bytes@);
    assert(parse_block(solution_bytes@) == Some(solution_bytes@));
}

/// A client whose answer does not solve the challenge is told so, whatever
/// the corpus holds: the server writes the rejection text.
pub proof fn lemma_wrong_solution_is_rejected(
    rows: Seq<String>,
    challenge: Challenge,
    solution: [u8; 16],
    last: ServerState,
    response: ServerAction,
)
    requires
        !challenge.accepts(solution@),
        server_transition(
            ServerState::Verified { challenge, solution },
            Event::Ready,
            rows,
            last,
            response,
        ),
    ensures
        last == ServerState::ResponseSent,
        response matches ServerAction::Write(bytes) && bytes@ == text_frame(REJECTION@),
{
}

/// The client reads what the server wrote. Where `frame` is a response that
/// the server may write, and it has reached the client in full with a last
/// read that brought fewer bytes than were asked for, the client ends with
/// the text that the server chose: one of the rows for an accepted solution,
/// the rejection text for another.
pub proof fn lemma_response_reaches_client(
    accepted: bool,
    rows: Seq<String>,
    frame: Seq<u8>,
    received: Vec<u8>,
    chunk: Vec<u8>,
    next: ClientState,
    action: ClientAction,
)
    requires
        is_response_frame(accepted, rows, frame),
        frame.len() <= u64::MAX,
        received@ + chunk@ == frame,
        chunk@.len() < READ_BYTES_SIZE,
        client_transition(
            ClientState::AwaitingResponse { received },
            Event::Received(chunk),
            next,
            action,
        ),
    ensures
        next == ClientState::Done,
        action matches ClientAction::Finish(Ok(text)) && if accepted {
            is_row(rows, text@)
        } else {
            text@ == REJECTION@
        },
{
    let text = choose|text: Seq<char>|
        #[trigger] text_frame(text) == frame && if accepted {
            is_row(rows, text)
        } else {
            text == REJECTION@
        };
    vstd::bytes::lemma_auto_spec_u64_to_from_le_bytes();
    lemma_text_round_trip(text);
}

} // verus!
