use vstd::prelude::*;
use vstd::arithmetic::power::pow;
use vstd::relations::injective_on;
use vstd::set_lib::{lemma_int_range, lemma_map_size, set_int_range};
use crate::difficulty::{first_nibbles_zero, lemma_leading_zero_nibbles_at_least, nibble, passes};
use crate::hashing::DIGEST_SIZE;

verus! {

/// The number that `bytes` write, the first byte counting most.
pub open spec fn big_endian(bytes: Seq<u8>) -> nat
    decreases bytes.len(),
{
    if bytes.len() == 0 {
        0
    } else {
        big_endian(bytes.drop_last()) * 256 + bytes.last() as nat
    }
}

/// The `length` bytes that write `number`, the first byte counting most.
pub open spec fn number_bytes(number: int, length: nat) -> Seq<u8>
    decreases length,
{
    if length == 0 {
        Seq::<u8>::empty()
    } else {
        number_bytes(number / 256, (length - 1) as nat).push((number % 256) as u8)
    }
}

/// The digests that pass a difficulty.
pub open spec fn passing_digests(difficulty: nat) -> Set<Seq<u8>> {
    Set::new(|digest: Seq<u8>| digest.len() == DIGEST_SIZE && passes(digest, difficulty))
}

/// Powers of sixteen are positive, and each is sixteen times the one before.
pub proof fn lemma_pow16(exponent: nat)
    ensures
        pow(16, exponent) > 0,
        pow(16, exponent + 1) == 16 * pow(16, exponent),
        pow(16, exponent + 2) == 256 * pow(16, exponent),
    decreases exponent,
{
    reveal(pow);
    if exponent > 0 {
        lemma_pow16((exponent - 1) as nat);
    }
    assert(pow(16, exponent + 2) == 16 * pow(16, exponent + 1));
}

/// As many bytes write a number below sixteen to the power of twice their
/// count.
pub proof fn lemma_big_endian_bounded(bytes: Seq<u8>)
    ensures
        big_endian(bytes) < pow(16, 2 * bytes.len()),
    decreases bytes.len(),
{
    if bytes.len() == 0 {
        reveal(pow);
    } else {
        lemma_big_endian_bounded(bytes.drop_last());
        lemma_pow16(2 * bytes.drop_last().len());
    }
}

/// Writing a number that fits and reading it again gives the number.
pub proof fn lemma_write_then_read(number: int, length: nat)
    requires
        0 <= number < pow(16, 2 * length),
    ensures
        number_bytes(number, length).len() == length,
        big_endian(number_bytes(number, length)) == number,
    decreases length,
{
    if length == 0 {
        reveal(pow);
    } else {
        let shorter = (length - 1) as nat;
        lemma_pow16(2 * shorter);
        lemma_write_then_read(number / 256, shorter);
        let written = number_bytes(number, length);
        assert(written.drop_last() =~= number_bytes(number / 256, shorter));
        assert(written.last() == (number % 256) as u8);
    }
}

/// Reading bytes as a number and writing it again gives the bytes.
pub proof fn lemma_read_then_write(bytes: Seq<u8>)
    ensures
        number_bytes(big_endian(bytes) as int, bytes.len()) == bytes,
    decreases bytes.len(),
{
    if bytes.len() > 0 {
        let front = bytes.drop_last();
        lemma_read_then_write(front);
        let number = big_endian(bytes) as int;
        assert(number / 256 == big_endian(front));
        assert(number % 256 == bytes.last());
        assert(number_bytes(number, bytes.len()) =~= bytes);
    } else {
        assert(number_bytes(0, 0) =~= bytes);
    }
}

/// The first `count` nibbles of the bytes are zero exactly when the number
/// that the bytes write is below sixteen to the power of the count of
/// nibbles that are left.
pub proof fn lemma_zero_nibbles_bound_the_number(bytes: Seq<u8>, count: nat)
    requires
        count <= 2 * bytes.len(),
    ensures
        first_nibbles_zero(bytes, count as int) <==> big_endian(bytes) < pow(
            16,
            (2 * bytes.len() - count) as nat,
        ),
    decreases bytes.len(),
{
    if bytes.len() == 0 {
        reveal(pow);
    } else {
        let front = bytes.drop_last();
        let last = bytes.last();
        let inner: int = 2 * (front.len() as int);
        assert forall|j: int| 0 <= j < inner implies nibble(front, j) == nibble(bytes, j) by {
            assert(front[j / 2] == bytes[j / 2]);
        }
        assert(nibble(bytes, inner) == last as int / 16);
        assert(nibble(bytes, inner + 1) == last as int % 16);
        if count <= inner {
            lemma_zero_nibbles_bound_the_number(front, count);
            lemma_pow16((inner - count) as nat);
            if first_nibbles_zero(bytes, count as int) {
                assert(first_nibbles_zero(front, count as int));
            }
            if first_nibbles_zero(front, count as int) {
                assert(first_nibbles_zero(bytes, count as int));
            }
        } else {
            lemma_zero_nibbles_bound_the_number(front, inner as nat);
            lemma_pow16(0);
            reveal(pow);
            assert(pow(16, 0) == 1);
            assert(pow(16, 1) == 16);
            if first_nibbles_zero(bytes, count as int) {
                assert(first_nibbles_zero(front, inner));
                assert(nibble(bytes, inner) == 0);
                if count == inner + 2 {
                    assert(nibble(bytes, inner + 1) == 0);
                }
            }
            if big_endian(bytes) < pow(16, (2 * bytes.len() - count) as nat) {
                assert(big_endian(front) == 0);
                assert(first_nibbles_zero(front, inner));
                assert forall|j: int| 0 <= j < count implies nibble(bytes, j) == 0 by {
                    if j < inner {
                        assert(nibble(front, j) == 0);
                    }
                }
            }
        }
    }
}

/// How many digests pass: of all digests, sixteen to the power of the count
/// of nibbles that the difficulty leaves free. So a digest drawn evenly from
/// all passes with one chance in sixteen to the power of the difficulty.
pub proof fn lemma_count_of_passing_digests(difficulty: nat)
    requires
        difficulty <= 2 * DIGEST_SIZE,
    ensures
        passing_digests(difficulty).finite(),
        passing_digests(difficulty).len() == pow(16, (2 * DIGEST_SIZE - difficulty) as nat),
{
    let length = DIGEST_SIZE as nat;
    let free = (2 * length - difficulty) as nat;
    let limit = pow(16, free);
    let numbers = set_int_range(0, limit);
    let write = |number: int| number_bytes(number, length);
    lemma_pow16(free);
    lemma_int_range(0, limit);
    vstd::arithmetic::power::lemma_pow_increases(16, free, 2 * length);
    assert forall|a: int, b: int|
        numbers.contains(a) && numbers.contains(b) && #[trigger] write(a) == #[trigger] write(
            b,
        ) implies a == b by {
        lemma_write_then_read(a, length);
        lemma_write_then_read(b, length);
    }
    assert(injective_on(write, numbers));
    assert forall|digest: Seq<u8>| passing_digests(difficulty).contains(digest) implies numbers.map(
        write,
    ).contains(digest) by {
        lemma_leading_zero_nibbles_at_least(digest, difficulty);
        lemma_zero_nibbles_bound_the_number(digest, difficulty);
        lemma_read_then_write(digest);
        let number = big_endian(digest) as int;
        assert(numbers.contains(number) && write(number) == digest);
    }
    assert forall|digest: Seq<u8>| numbers.map(write).contains(digest) implies passing_digests(
        difficulty,
    ).contains(digest) by {
        let number = choose|number: int| numbers.contains(number) && write(number) == digest;
        lemma_write_then_read(number, length);
        lemma_leading_zero_nibbles_at_least(digest, difficulty);
        lemma_zero_nibbles_bound_the_number(digest, difficulty);
    }
    assert(numbers.map(write) =~= passing_digests(difficulty));
    lemma_map_size(numbers, passing_digests(difficulty), write);
}

/// One more nibble asked for leaves a sixteenth of the digests.
pub proof fn lemma_one_more_nibble_leaves_a_sixteenth(difficulty: nat)
    requires
        difficulty < 2 * DIGEST_SIZE,
    ensures
        passing_digests(difficulty).len() == 16 * passing_digests(difficulty + 1).len(),
{
    lemma_count_of_passing_digests(difficulty);
    lemma_count_of_passing_digests(difficulty + 1);
    lemma_pow16((2 * DIGEST_SIZE - difficulty - 1) as nat);
}

} // verus!
