use vstd::prelude::*;
use crate::difficulty::{hex_string, lemma_passes_iff_hex_starts_with_zeros, meets_difficulty, passes, zeros};
use crate::hashing::{absorbed, sha256, HashContext, DIGEST_SIZE};

verus! {

/// Number of bytes in a challenge.
pub const CHALLENGE_SIZE: usize = 16;

/// Number of bytes in a solution.
pub const SOLUTION_SIZE: usize = 16;

/// The difficulty: how many leading zero nibbles the digest of a challenge
/// followed by a solution must have.
pub const COMPLEXITY: usize = 4;

/// Whether `solution` solves the challenge made of the bytes `challenge`:
/// the digest of the challenge followed by the solution passes the
/// difficulty.
pub open spec fn solves(challenge: Seq<u8>, solution: Seq<u8>) -> bool {
    passes(sha256(challenge + solution), COMPLEXITY as nat)
}

/// Whether the candidates `draws`, tried in order, make a search that ends
/// with its last candidate: that one solves the challenge, and none before
/// it does.
pub open spec fn search_hit(challenge: Seq<u8>, draws: Seq<Seq<u8>>) -> bool {
    &&& draws.len() >= 1
    &&& solves(challenge, draws.last())
    &&& forall|i: int| 0 <= i < draws.len() - 1 ==> !solves(challenge, #[trigger] draws[i])
}

/// Whether none of the candidates `draws` solves the challenge.
pub open spec fn search_miss(challenge: Seq<u8>, draws: Seq<Seq<u8>>) -> bool {
    forall|i: int| 0 <= i < draws.len() ==> !solves(challenge, #[trigger] draws[i])
}

/// A search that tried the candidates `draws`, in order, has found
/// `solution` after `tries` candidates: it tried that many, the last of them
/// is the solution, and it is the first that solves the challenge.
pub open spec fn search_found(
    challenge: Seq<u8>,
    draws: Seq<Seq<u8>>,
    solution: Seq<u8>,
    tries: u128,
) -> bool {
    &&& draws.len() == tries
    &&& search_hit(challenge, draws)
    &&& draws.last() == solution
}

/// A search that tried the candidates `draws` has given up: it tried as many
/// as the count can hold, and none of them solves the challenge.
pub open spec fn search_exhausted(challenge: Seq<u8>, draws: Seq<Seq<u8>>) -> bool {
    &&& draws.len() == u128::MAX
    &&& search_miss(challenge, draws)
}

/// What a search that tried the candidates `draws`, in order, comes to: the
/// first of them that solves the challenge, with its place in the row, or
/// nothing once the search has given up.
pub open spec fn search_outcome(
    challenge: Seq<u8>,
    draws: Seq<Seq<u8>>,
    found: Option<([u8; SOLUTION_SIZE], u128)>,
) -> bool {
    match found {
        Some((solution, tries)) => search_found(challenge, draws, solution@, tries),
        None => search_exhausted(challenge, draws),
    }
}

/// Calls `rand::Rng::gen` on the thread's generator for sixteen bytes.
/// Nothing is promised of them.
#[verifier::external_body]
fn random_bytes() -> (bytes: [u8; 16]) {
    rand::Rng::gen::<[u8; 16]>(&mut rand::thread_rng())
}

/// A proof-of-work puzzle: sixteen bytes, and a hash context that has taken
/// in exactly those bytes, kept so that each candidate solution is hashed
/// without hashing the challenge again.
#[derive(Debug)]
pub struct Challenge {
    challenge: [u8; CHALLENGE_SIZE],
    hash: HashContext,
}

impl Challenge {
    #[verifier::type_invariant]
    spec fn seeded(self) -> bool {
        self.hashed() == self.bytes()
    }

    /// The challenge bytes.
    pub closed spec fn bytes(self) -> Seq<u8> {
        self.challenge@
    }

    /// The bytes that the stored hash context has taken in.
    pub closed spec fn hashed(self) -> Seq<u8> {
        absorbed(self.hash)
    }

    /// A challenge has sixteen bytes.
    pub proof fn lemma_bytes_len(self)
        ensures
            self.bytes().len() == CHALLENGE_SIZE,
    {
    }

    /// Whether `solution` solves this challenge.
    pub open spec fn accepts(self, solution: Seq<u8>) -> bool {
        solves(self.bytes(), solution)
    }

    /// The challenge made of the given bytes, with a hash context that has
    /// taken in those bytes and nothing else.
    pub fn new(challenge: [u8; CHALLENGE_SIZE]) -> (made: Challenge)
        ensures
            made.bytes() == challenge@,
            made.hashed() == challenge@,
    {
        Challenge { challenge, hash: hash(challenge) }
    }

    /// A challenge of sixteen random bytes, with a hash context that has
    /// taken in those bytes and nothing else. Which bytes is left open.
    pub fn new_rand() -> (made: Challenge)
        ensures
            made.bytes().len() == CHALLENGE_SIZE,
            made.hashed() == made.bytes(),
    {
        let challenge = random_bytes();
        Challenge { challenge, hash: hash(challenge) }
    }

    /// The challenge bytes.
    pub fn challenge(&self) -> (bytes: [u8; CHALLENGE_SIZE])
        ensures
            bytes@ == self.bytes(),
    {
        self.challenge
    }

    /// Tells whether `solution` solves this challenge.
    pub fn check_solution(&self, solution: &[u8; SOLUTION_SIZE]) -> (ok: bool)
        ensures
            ok == self.accepts(solution@),
    {
        proof {
            use_type_invariant(self);
        }
        let mut hash = self.hash.duplicate();
        hash.update(solution.as_slice());
        let digest = hash.finalize();
        meets_difficulty(&digest, COMPLEXITY)
    }

    /// Judges one candidate of a search in which `tried` candidates have
    /// failed before it: where it solves the challenge it is the result,
    /// with the count of candidates up to and including it; where it does
    /// not, there is no result yet.
    pub fn try_candidate(&self, candidate: [u8; SOLUTION_SIZE], tried: u128) -> (found: Option<
        ([u8; SOLUTION_SIZE], u128),
    >)
        requires
            tried < u128::MAX,
        ensures
            found == (if self.accepts(candidate@) {
                Some((candidate, (tried + 1) as u128))
            } else {
                None::<([u8; SOLUTION_SIZE], u128)>
            }),
    {
        if self.check_solution(&candidate) {
            Some((candidate, tried + 1))
        } else {
            None
        }
    }

    /// Searches for a solution by trying random candidates one after another,
    /// each with `try_candidate`. Returns the first candidate that solves the
    /// challenge, with the number of candidates tried, that one included. The
    /// search gives up, with `None`, only once the count of candidates can
    /// grow no further, every candidate so far having failed.
    ///
    /// The candidates are drawn inside and not seen from outside, so the
    /// contract speaks of some row of candidates of which the result is the
    /// outcome; what becomes of each candidate drawn is stated exactly on
    /// `try_candidate`.
    pub fn solve(&self) -> (found: Option<([u8; SOLUTION_SIZE], u128)>)
        ensures
            exists|draws: Seq<Seq<u8>>| search_outcome(self.bytes(), draws, found),
            found matches Some((solution, tries)) ==> self.accepts(solution@) && tries >= 1,
    {
        let mut tried: u128 = 0;
        let ghost mut draws: Seq<Seq<u8>> = Seq::empty();
        while tried < u128::MAX
            invariant
                draws.len() == tried,
                search_miss(self.bytes(), draws),
            decreases u128::MAX - tried,
        {
            let candidate = random_bytes();
            let found = self.try_candidate(candidate, tried);
            let ghost before = draws;
            proof {
                draws = draws.push(candidate@);
                assert forall|i: int| 0 <= i < before.len() implies !solves(
                    self.bytes(),
                    #[trigger] draws[i],
                ) by {
                    assert(draws[i] == before[i]);
                }
            }
            if found.is_some() {
                proof {
                    assert(search_outcome(self.bytes(), draws, found));
                }
                return found;
            }
            tried = tried + 1;
        }
        proof {
            assert(search_outcome(self.bytes(), draws, None));
        }
        None
    }
}

impl Default for Challenge {
    /// A challenge of sixteen random bytes, as `new_rand` makes it.
    fn default() -> (made: Challenge)
        ensures
            made.bytes().len() == CHALLENGE_SIZE,
            made.hashed() == made.bytes(),
    {
        Challenge::new_rand()
    }
}

/// The difficulty asks for at least one zero nibble and for no more nibbles
/// than a digest has.
pub proof fn lemma_complexity_in_range()
    ensures
        1 <= COMPLEXITY <= 2 * DIGEST_SIZE,
{
}

/// Checking a solution by counting zero nibbles agrees with checking it on
/// the hexadecimal text of the digest: a solution solves a challenge exactly
/// when the text of the digest of challenge and solution starts with as many
/// characters `0` as the difficulty asks for.
pub proof fn lemma_solves_iff_hex_starts_with_zeros(challenge: Seq<u8>, solution: Seq<u8>)
    ensures
        solves(challenge, solution) <==> zeros(COMPLEXITY as nat).is_prefix_of(
            hex_string(sha256(challenge + solution)),
        ),
{
    lemma_passes_iff_hex_starts_with_zeros(sha256(challenge + solution), COMPLEXITY as nat);
}

/// A hash context that has taken in the challenge bytes and nothing else.
fn hash(challenge: [u8; CHALLENGE_SIZE]) -> (context: HashContext)
    ensures
        absorbed(context) == challenge@,
{
    let mut context = HashContext::new();
    context.update(challenge.as_slice());
    assert(Seq::<u8>::empty() + challenge@ =~= challenge@);
    context
}

} // verus!
