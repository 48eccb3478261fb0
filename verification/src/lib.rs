pub mod book;
pub mod challenge;
pub mod client;
pub mod codec;
pub mod corpus;
pub mod difficulty;
pub mod hashing;
pub mod odds;
pub mod protocol;
pub mod server;
pub mod server_error;
pub mod session;

pub use challenge::{Challenge, CHALLENGE_SIZE, COMPLEXITY, SOLUTION_SIZE};
