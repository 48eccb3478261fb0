use vstd::prelude::*;

verus! {

/// What the code that owns the socket reports back to a protocol engine
/// after it has carried out the engine's last action.
#[derive(Debug)]
pub enum Event {
    /// The engine asked for nothing to be done outside and may go on.
    Ready,
    /// The bytes handed out were written in full.
    Written,
    /// The bytes asked for were read.
    Received(Vec<u8>),
    /// The read or the write failed.
    Failed,
}

} // verus!
