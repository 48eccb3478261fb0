use word_of_wisdom::challenge::Challenge;
use word_of_wisdom::client::{
    answer_challenge, answer_from_search, client_step, ClientAction, ClientError, ClientState, READ_BYTES_SIZE,
};
use word_of_wisdom::codec::encode_text;
use word_of_wisdom::corpus::REJECTION;
use word_of_wisdom::protocol::Event;
use word_of_wisdom::server::{server_step, ServerAction, ServerState};
use word_of_wisdom::server_error::ServerError;

fn rows_of(lines: &[&str]) -> Vec<String> {
    lines.iter().map(|line| line.to_string()).collect()
}

fn written(action: ServerAction) -> Vec<u8> {
    match action {
        ServerAction::Write(bytes) => bytes,
        other => panic!("expected a write, got {:?}", other),
    }
}

fn closed_with(moved: (ServerState, ServerAction)) -> Result<(), ServerError> {
    assert!(matches!(moved.0, ServerState::Closed));
    match moved.1 {
        ServerAction::Close(outcome) => outcome,
        other => panic!("expected a close, got {:?}", other),
    }
}

fn finished_with(moved: (ClientState, ClientAction)) -> Result<String, ClientError> {
    assert!(matches!(moved.0, ClientState::Done));
    match moved.1 {
        ClientAction::Finish(outcome) => outcome,
        other => panic!("expected the end, got {:?}", other),
    }
}

/// Runs the server up to the point where it waits for the solution and
/// returns that state with the challenge bytes it sent.
fn server_awaiting_solution(rows: &Vec<String>) -> (ServerState, Vec<u8>) {
    let (state, action) = server_step(ServerState::Accepted, Event::Ready, rows);
    assert!(matches!(state, ServerState::ChallengeSent { .. }));
    let challenge = written(action);
    assert_eq!(challenge.len(), 16);
    let (state, action) = server_step(state, Event::Written, rows);
    assert!(matches!(state, ServerState::AwaitingSolution { .. }));
    assert!(matches!(action, ServerAction::ReadExact(16)));
    (state, challenge)
}

/// Hands the solution to the server and returns the bytes of its response.
fn server_response(state: ServerState, solution: Vec<u8>, rows: &Vec<String>) -> Vec<u8> {
    let (state, action) = server_step(state, Event::Received(solution), rows);
    assert!(matches!(state, ServerState::Verified { .. }));
    assert!(matches!(action, ServerAction::Continue));
    let (state, action) = server_step(state, Event::Ready, rows);
    assert!(matches!(state, ServerState::ResponseSent));
    let response = written(action);
    assert_eq!(closed_with(server_step(state, Event::Written, rows)), Ok(()));
    response
}

/// Runs the client from the received challenge to the solution it sends.
fn client_solution(challenge: Vec<u8>) -> (ClientState, Vec<u8>) {
    let (state, action) = client_step(ClientState::Connected, Event::Ready);
    assert!(matches!(state, ClientState::AwaitingChallenge));
    assert!(matches!(action, ClientAction::ReadExact(16)));
    let (state, action) = client_step(state, Event::Received(challenge));
    assert!(matches!(state, ClientState::SolutionSent { attempts } if attempts >= 1));
    let solution = match action {
        ClientAction::Write(bytes) => bytes,
        other => panic!("expected a write, got {:?}", other),
    };
    let (state, action) = client_step(state, Event::Written);
    assert!(matches!(&state, ClientState::AwaitingResponse { received } if received.is_empty()));
    assert!(matches!(action, ClientAction::Read(256)));
    (state, solution)
}

/// Feeds the response to the client in reads of at most 256 bytes.
fn client_outcome(mut state: ClientState, response: &[u8]) -> Result<String, ClientError> {
    let mut offset = 0;
    loop {
        let end = usize::min(offset + READ_BYTES_SIZE, response.len());
        let chunk = response[offset..end].to_vec();
        let last = chunk.len() < READ_BYTES_SIZE;
        offset = end;
        let moved = client_step(state, Event::Received(chunk));
        if last {
            return finished_with(moved);
        }
        assert!(matches!(moved.1, ClientAction::Read(256)));
        assert!(matches!(moved.0, ClientState::AwaitingResponse { .. }));
        state = moved.0;
    }
}

#[test]
fn solving_client_receives_the_row() {
    let rows = rows_of(&["Test row"]);
    let (server, challenge) = server_awaiting_solution(&rows);
    let (client, solution) = client_solution(challenge.clone());
    assert_eq!(solution.len(), 16);
    let mut block = [0u8; 16];
    block.copy_from_slice(&challenge);
    let mut answer = [0u8; 16];
    answer.copy_from_slice(&solution);
    assert!(Challenge::new(block).check_solution(&answer));
    let response = server_response(server, solution, &rows);
    assert_eq!(response, encode_text("Test row").unwrap());
    assert_eq!(client_outcome(client, &response), Ok("Test row".to_string()));
}

#[test]
fn cheating_client_receives_the_rejection() {
    let rows = rows_of(&["Test row"]);
    let mut sessions = 0;
    while sessions < 20 {
        let (server, challenge) = server_awaiting_solution(&rows);
        let mut block = [0u8; 16];
        block.copy_from_slice(&challenge);
        if Challenge::new(block).check_solution(&[0u8; 16]) {
            // all zeros happens to solve this challenge: take another one
            continue;
        }
        sessions += 1;
        let response = server_response(server, vec![0u8; 16], &rows);
        assert_eq!(response, encode_text(REJECTION).unwrap());
        assert_ne!(response, encode_text("Test row").unwrap());
        let client = ClientState::AwaitingResponse { received: Vec::new() };
        assert_eq!(client_outcome(client, &response), Ok("Trtying to cheat uh?!".to_string()));
    }
}

#[test]
fn every_row_is_served_over_many_sessions() {
    let rows = rows_of(&["alpha", "beta", "gamma"]);
    let mut counts = [0u32; 3];
    let challenge = Challenge::new_rand();
    let (solution, _) = challenge.solve().unwrap();
    for _ in 0..3000 {
        let block = challenge.challenge();
        let state = ServerState::Verified { challenge: Challenge::new(block), solution };
        let (state, action) = server_step(state, Event::Ready, &rows);
        assert!(matches!(state, ServerState::ResponseSent));
        let response = written(action);
        let index = rows.iter().position(|row| encode_text(row).unwrap() == response).unwrap();
        counts[index] += 1;
    }
    for count in counts {
        assert!(800 <= count && count <= 1200, "counts {:?}", counts);
    }
}

#[test]
fn correct_solution_with_empty_corpus_is_a_data_selection_error() {
    let rows: Vec<String> = Vec::new();
    let (server, challenge) = server_awaiting_solution(&rows);
    let (_, solution) = client_solution(challenge);
    let (state, action) = server_step(server, Event::Received(solution), &rows);
    assert!(matches!(action, ServerAction::Continue));
    assert_eq!(closed_with(server_step(state, Event::Ready, &rows)), Err(ServerError::DataSelectionError));
}

#[test]
fn wrong_solution_with_empty_corpus_still_gets_the_rejection() {
    let rows: Vec<String> = Vec::new();
    let challenge = Challenge::new([1, 2, 3, 4, 5, 6, 7, 8, 9, 10, 11, 12, 13, 14, 15, 16]);
    let state = ServerState::Verified { challenge, solution: [0u8; 16] };
    let (state, action) = server_step(state, Event::Ready, &rows);
    assert!(matches!(state, ServerState::ResponseSent));
    assert_eq!(written(action), encode_text(REJECTION).unwrap());
}

#[test]
fn known_solution_is_served_a_row() {
    let rows = rows_of(&["Test row"]);
    let challenge = Challenge::new([1, 2, 3, 4, 5, 6, 7, 8, 9, 10, 11, 12, 13, 14, 15, 16]);
    let solution = vec![158, 169, 0, 0, 0, 0, 0, 0, 0, 0, 0, 0, 0, 0, 0, 0];
    let response = server_response(ServerState::AwaitingSolution { challenge }, solution, &rows);
    assert_eq!(response, encode_text("Test row").unwrap());
}

#[test]
fn short_solution_is_a_deserialize_error() {
    let rows = rows_of(&["Test row"]);
    let (server, _) = server_awaiting_solution(&rows);
    assert_eq!(closed_with(server_step(server, Event::Received(vec![0u8; 15]), &rows)), Err(ServerError::Deserialize));
}

#[test]
fn failed_io_is_a_communication_error_in_every_state() {
    let rows = rows_of(&["Test row"]);
    assert_eq!(closed_with(server_step(ServerState::Accepted, Event::Failed, &rows)), Err(ServerError::Communication));
    let (sent, _) = server_step(ServerState::Accepted, Event::Ready, &rows);
    assert_eq!(closed_with(server_step(sent, Event::Failed, &rows)), Err(ServerError::Communication));
    let (awaiting, _) = server_awaiting_solution(&rows);
    assert_eq!(closed_with(server_step(awaiting, Event::Failed, &rows)), Err(ServerError::Communication));
    let verified = ServerState::Verified { challenge: Challenge::new_rand(), solution: [0u8; 16] };
    assert_eq!(closed_with(server_step(verified, Event::Failed, &rows)), Err(ServerError::Communication));
    assert_eq!(closed_with(server_step(ServerState::ResponseSent, Event::Failed, &rows)), Err(ServerError::Communication));
    assert_eq!(closed_with(server_step(ServerState::Closed, Event::Failed, &rows)), Err(ServerError::Communication));
}

#[test]
fn event_out_of_turn_ends_the_session() {
    let rows = rows_of(&["Test row"]);
    assert_eq!(closed_with(server_step(ServerState::Accepted, Event::Written, &rows)), Err(ServerError::Communication));
    assert_eq!(closed_with(server_step(ServerState::Accepted, Event::Received(vec![0u8; 16]), &rows)), Err(ServerError::Communication));
    let (sent, _) = server_step(ServerState::Accepted, Event::Ready, &rows);
    assert_eq!(closed_with(server_step(sent, Event::Received(vec![0u8; 16]), &rows)), Err(ServerError::Communication));
    let (awaiting, _) = server_awaiting_solution(&rows);
    assert_eq!(closed_with(server_step(awaiting, Event::Written, &rows)), Err(ServerError::Communication));
    assert_eq!(closed_with(server_step(ServerState::ResponseSent, Event::Ready, &rows)), Err(ServerError::Communication));
    assert_eq!(closed_with(server_step(ServerState::Closed, Event::Ready, &rows)), Err(ServerError::Communication));
}

#[test]
fn each_session_gets_its_own_challenge() {
    let rows = rows_of(&["Test row"]);
    let (_, first) = server_awaiting_solution(&rows);
    let (_, second) = server_awaiting_solution(&rows);
    assert_ne!(first, second);
}

#[test]
fn client_refuses_a_short_challenge() {
    let (state, _) = client_step(ClientState::Connected, Event::Ready);
    assert_eq!(finished_with(client_step(state, Event::Received(vec![1u8; 10]))), Err(ClientError::Deserialize));
}

#[test]
fn client_reads_until_a_short_read() {
    let long = "0123456789abcdef".repeat(40);
    let response = encode_text(&long).unwrap();
    assert_eq!(response.len(), 648);
    let state = ClientState::AwaitingResponse { received: Vec::new() };
    assert_eq!(client_outcome(state, &response), Ok(long));
}

#[test]
fn client_reads_once_more_after_a_full_read() {
    // 248 bytes of text and the length field fill one read exactly
    let text = "y".repeat(248);
    let response = encode_text(&text).unwrap();
    assert_eq!(response.len(), READ_BYTES_SIZE);
    let state = ClientState::AwaitingResponse { received: Vec::new() };
    let (state, action) = client_step(state, Event::Received(response.clone()));
    assert!(matches!(action, ClientAction::Read(256)));
    assert!(matches!(&state, ClientState::AwaitingResponse { received } if *received == response));
    assert_eq!(finished_with(client_step(state, Event::Received(Vec::new()))), Ok(text));
}

#[test]
fn client_refuses_a_broken_response() {
    let state = ClientState::AwaitingResponse { received: Vec::new() };
    assert_eq!(finished_with(client_step(state, Event::Received(vec![9, 0, 0, 0, 0, 0, 0, 0, b'x']))), Err(ClientError::Deserialize));
    let state = ClientState::AwaitingResponse { received: Vec::new() };
    assert_eq!(finished_with(client_step(state, Event::Received(Vec::new()))), Err(ClientError::Deserialize));
    let state = ClientState::AwaitingResponse { received: vec![1, 0, 0, 0] };
    assert_eq!(finished_with(client_step(state, Event::Received(vec![0, 0, 0, 0, 0xff]))), Err(ClientError::Deserialize));
}

#[test]
fn client_joins_what_came_before_with_the_last_read() {
    let state = ClientState::AwaitingResponse { received: vec![2, 0, 0, 0] };
    assert_eq!(finished_with(client_step(state, Event::Received(vec![0, 0, 0, 0, b'o', b'k']))), Ok("ok".to_string()));
}

#[test]
fn client_failure_is_a_communication_error() {
    assert_eq!(finished_with(client_step(ClientState::Connected, Event::Failed)), Err(ClientError::Communication));
    assert_eq!(finished_with(client_step(ClientState::AwaitingChallenge, Event::Failed)), Err(ClientError::Communication));
    assert_eq!(finished_with(client_step(ClientState::SolutionSent { attempts: 1 }, Event::Failed)), Err(ClientError::Communication));
    let state = ClientState::AwaitingResponse { received: Vec::new() };
    assert_eq!(finished_with(client_step(state, Event::Failed)), Err(ClientError::Communication));
    assert_eq!(finished_with(client_step(ClientState::Done, Event::Ready)), Err(ClientError::Communication));
    assert_eq!(finished_with(client_step(ClientState::Connected, Event::Written)), Err(ClientError::Communication));
    assert_eq!(finished_with(client_step(ClientState::SolutionSent { attempts: 7 }, Event::Received(vec![1]))), Err(ClientError::Communication));
}

#[test]
fn answer_is_the_encoded_solution_with_its_count() {
    let solution = [158, 169, 0, 0, 0, 0, 0, 0, 0, 0, 0, 0, 0, 0, 0, 0];
    assert_eq!(answer_from_search(Some((solution, 43423))), Ok((solution.to_vec(), 43423)));
    assert_eq!(answer_from_search(Some(([7u8; 16], 1))), Ok((vec![7u8; 16], 1)));
    assert_eq!(answer_from_search(Some(([0u8; 16], u128::MAX))), Ok((vec![0u8; 16], u128::MAX)));
}

#[test]
fn search_that_gave_up_has_no_answer() {
    assert_eq!(answer_from_search(None), Err(ClientError::SearchExhausted));
}

#[test]
fn answered_challenge_is_solved() {
    let block = [1, 2, 3, 4, 5, 6, 7, 8, 9, 10, 11, 12, 13, 14, 15, 16];
    let (bytes, attempts) = answer_challenge(block).unwrap();
    assert!(attempts >= 1);
    assert_eq!(bytes.len(), 16);
    let mut solution = [0u8; 16];
    solution.copy_from_slice(&bytes);
    assert!(Challenge::new(block).check_solution(&solution));
}

#[test]
fn written_solution_waits_for_the_response_whatever_its_count() {
    let (state, action) = client_step(ClientState::SolutionSent { attempts: 65536 }, Event::Written);
    assert!(matches!(&state, ClientState::AwaitingResponse { received } if received.is_empty()));
    assert!(matches!(action, ClientAction::Read(256)));
}
