use vstd::prelude::*;

verus! {

/// The `index`-th 4-bit half of `bytes`, counted from the high half of the
/// first byte: byte `index / 2`, its high half when `index` is even, its low
/// half when `index` is odd.
pub open spec fn nibble(bytes: Seq<u8>, index: int) -> int {
    if index % 2 == 0 {
        bytes[index / 2] as int / 16
    } else {
        bytes[index / 2] as int % 16
    }
}

/// How many nibbles in a row are zero, starting at nibble `from`.
pub open spec fn zero_run(bytes: Seq<u8>, from: int) -> nat
    decreases 2 * bytes.len() - from,
{
    if 0 <= from < 2 * bytes.len() && nibble(bytes, from) == 0 {
        1 + zero_run(bytes, from + 1)
    } else {
        0
    }
}

/// The number of zero nibbles before the first nibble that is not zero.
pub open spec fn leading_zero_nibbles(bytes: Seq<u8>) -> nat {
    zero_run(bytes, 0)
}

/// Whether the first `count` nibbles of `bytes` exist and are all zero.
pub open spec fn first_nibbles_zero(bytes: Seq<u8>, count: int) -> bool {
    &&& count <= 2 * bytes.len()
    &&& forall|j: int| 0 <= j < count ==> nibble(bytes, j) == 0
}

/// A digest passes a difficulty when it has at least that many leading zero
/// nibbles.
pub open spec fn passes(digest: Seq<u8>, difficulty: nat) -> bool {
    leading_zero_nibbles(digest) >= difficulty
}

/// A run of zero nibbles never reaches past the end of the bytes.
pub proof fn lemma_zero_run_bounded(bytes: Seq<u8>, from: int)
    requires
        0 <= from <= 2 * bytes.len(),
    ensures
        from + zero_run(bytes, from) <= 2 * bytes.len(),
    decreases 2 * bytes.len() - from,
{
    if from < 2 * bytes.len() && nibble(bytes, from) == 0 {
        lemma_zero_run_bounded(bytes, from + 1);
    }
}

/// Every nibble inside the run that starts at `from` is zero, and the nibble
/// just behind the run, if there is one, is not.
pub proof fn lemma_zero_run_contents(bytes: Seq<u8>, from: int)
    requires
        0 <= from <= 2 * bytes.len(),
    ensures
        forall|j: int| from <= j < from + zero_run(bytes, from) ==> nibble(bytes, j) == 0,
        from + zero_run(bytes, from) < 2 * bytes.len() ==> nibble(
            bytes,
            from + zero_run(bytes, from),
        ) != 0,
    decreases 2 * bytes.len() - from,
{
    if from < 2 * bytes.len() && nibble(bytes, from) == 0 {
        lemma_zero_run_contents(bytes, from + 1);
    }
}

/// Where the nibbles from `from` up to `upto` are zero, the run that starts
/// at `from` is as long as that stretch and the run that starts at `upto`
/// together.
pub proof fn lemma_zero_run_split(bytes: Seq<u8>, from: int, upto: int)
    requires
        0 <= from <= upto <= 2 * bytes.len(),
        forall|j: int| from <= j < upto ==> nibble(bytes, j) == 0,
    ensures
        zero_run(bytes, from) == (upto - from) + zero_run(bytes, upto),
    decreases upto - from,
{
    if from < upto {
        lemma_zero_run_split(bytes, from + 1, upto);
    }
}

/// The count of leading zero nibbles is at least `count` exactly when the
/// first `count` nibbles exist and are zero.
pub proof fn lemma_leading_zero_nibbles_at_least(bytes: Seq<u8>, count: nat)
    ensures
        leading_zero_nibbles(bytes) >= count <==> first_nibbles_zero(bytes, count as int),
{
    lemma_zero_run_bounded(bytes, 0);
    lemma_zero_run_contents(bytes, 0);
    if first_nibbles_zero(bytes, count as int) {
        lemma_zero_run_split(bytes, 0, count as int);
    }
}

/// The lower-case hexadecimal digit of a value from 0 to 15.
pub open spec fn hex_digit(value: int) -> char {
    seq!['0', '1', '2', '3', '4', '5', '6', '7', '8', '9', 'a', 'b', 'c', 'd', 'e', 'f'][value]
}

/// The lower-case hexadecimal text of `bytes`: two digits for each byte, the
/// high half first.
pub open spec fn hex_string(bytes: Seq<u8>) -> Seq<char> {
    Seq::new(2 * bytes.len(), |i: int| hex_digit(nibble(bytes, i)))
}

/// The text made of `count` characters `0`.
pub open spec fn zeros(count: nat) -> Seq<char> {
    Seq::new(count, |i: int| '0')
}

/// Counting leading zero nibbles agrees with reading the digest as
/// hexadecimal text: a digest passes a difficulty exactly when its
/// hexadecimal text starts with that many characters `0`.
pub proof fn lemma_passes_iff_hex_starts_with_zeros(digest: Seq<u8>, difficulty: nat)
    ensures
        passes(digest, difficulty) <==> zeros(difficulty).is_prefix_of(hex_string(digest)),
{
    lemma_leading_zero_nibbles_at_least(digest, difficulty);
    let text = hex_string(digest);
    assert forall|j: int| 0 <= j < 2 * digest.len() implies (text[j] == '0' <==> nibble(digest, j)
        == 0) by {
        let value = nibble(digest, j);
        assert(0 <= value < 16);
    }
    if first_nibbles_zero(digest, difficulty as int) {
        assert(zeros(difficulty) =~= text.subrange(0, difficulty as int));
    }
    if zeros(difficulty).is_prefix_of(text) {
        assert forall|j: int| 0 <= j < difficulty implies nibble(digest, j) == 0 by {
            assert(text.subrange(0, difficulty as int)[j] == zeros(difficulty)[j]);
        }
    }
}

/// Tells whether `digest` has at least `difficulty` leading zero nibbles.
/// Bytes are read from the front, the high half of each before its low half,
/// and reading stops at the first half that is not zero.
pub fn meets_difficulty(digest: &[u8; 32], difficulty: usize) -> (ok: bool)
    ensures
        ok == passes(digest@, difficulty as nat),
{
    let limit: usize = if difficulty / 2 < 32 {
        difficulty / 2 + 1
    } else {
        32
    };
    let mut count: usize = 0;
    let mut index: usize = 0;
    let mut stopped: bool = false;
    while index < limit && !stopped
        invariant
            index <= limit <= 32,
            digest@.len() == 32,
            count <= 64,
            !stopped ==> count == 2 * index,
            forall|j: int| 0 <= j < count ==> nibble(digest@, j) == 0,
            stopped ==> nibble(digest@, count as int) != 0,
        decreases (limit - index) + (if stopped { 0int } else { 1int }),
    {
        let byte: u8 = digest[index];
        assert(byte >> 4 == byte / 16 && byte & 0xF == byte % 16) by (bit_vector);
        assert(nibble(digest@, 2 * index) == byte / 16);
        assert(nibble(digest@, 2 * index + 1) == byte % 16);
        if byte >> 4 != 0 {
            stopped = true;
        } else if byte & 0xF != 0 {
            count = count + 1;
            stopped = true;
        } else {
            count = count + 2;
            index = index + 1;
        }
    }
    proof {
        lemma_zero_run_split(digest@, 0, count as int);
        lemma_zero_run_bounded(digest@, count as int);
    }
    count >= difficulty
}

} // verus!
