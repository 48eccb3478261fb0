use vstd::prelude::*;
use vstd::utf8::{
    encode_utf8, encode_utf8_valid_utf8, is_char_boundary, is_char_boundary_iff_is_leading_byte,
    is_char_boundary_start_end_of_seq, is_leading_byte_width_1, valid_utf8,
};
use vstd::string::StringSliceAdditionalSpecFns;

verus! {

/// The byte that ends a row of the book.
pub const NEWLINE: u8 = 0x0A;

/// Where the first newline of `bytes` stands; their length where there is
/// none.
pub open spec fn first_newline(bytes: Seq<u8>) -> nat
    decreases bytes.len(),
{
    if bytes.len() == 0 || bytes[0] == NEWLINE {
        0
    } else {
        1 + first_newline(bytes.drop_first())
    }
}

/// The first newline stands inside the bytes or right behind them.
pub proof fn lemma_first_newline_bounded(bytes: Seq<u8>)
    ensures
        first_newline(bytes) <= bytes.len(),
    decreases bytes.len(),
{
    if !(bytes.len() == 0 || bytes[0] == NEWLINE) {
        lemma_first_newline_bounded(bytes.drop_first());
    }
}

/// The pieces that the newlines cut `bytes` into, the newlines themselves
/// left out: one piece more than there are newlines, so a single empty piece
/// for no bytes, and an empty last piece where the bytes end in a newline.
pub open spec fn split_at_newlines(bytes: Seq<u8>) -> Seq<Seq<u8>>
    decreases bytes.len(),
{
    let cut = first_newline(bytes);
    if cut >= bytes.len() {
        seq![bytes]
    } else {
        seq![bytes.subrange(0, cut as int)] + split_at_newlines(
            bytes.subrange(cut as int + 1, bytes.len() as int),
        )
    }
}

/// The pieces put together again, with a newline between each two.
pub open spec fn join_with_newlines(pieces: Seq<Seq<u8>>) -> Seq<u8>
    decreases pieces.len(),
{
    if pieces.len() == 0 {
        Seq::<u8>::empty()
    } else if pieces.len() == 1 {
        pieces[0]
    } else {
        pieces[0] + seq![NEWLINE] + join_with_newlines(pieces.drop_first())
    }
}

/// No newline stands before the first newline.
pub proof fn lemma_no_newline_before_first(bytes: Seq<u8>)
    ensures
        forall|j: int| 0 <= j < first_newline(bytes) ==> bytes[j] != NEWLINE,
    decreases bytes.len(),
{
    if !(bytes.len() == 0 || bytes[0] == NEWLINE) {
        let rest = bytes.drop_first();
        lemma_first_newline_bounded(bytes);
        lemma_no_newline_before_first(rest);
        assert forall|j: int| 0 <= j < first_newline(bytes) implies bytes[j] != NEWLINE by {
            if j > 0 {
                assert(bytes[j] == rest[j - 1]);
            }
        }
    }
}

/// Where the first newline stands inside the bytes, a newline stands there.
pub proof fn lemma_first_newline_is_newline(bytes: Seq<u8>)
    ensures
        first_newline(bytes) < bytes.len() ==> bytes[first_newline(bytes) as int] == NEWLINE,
    decreases bytes.len(),
{
    if !(bytes.len() == 0 || bytes[0] == NEWLINE) {
        let rest = bytes.drop_first();
        lemma_first_newline_bounded(rest);
        lemma_first_newline_is_newline(rest);
        if first_newline(bytes) < bytes.len() {
            assert(bytes[first_newline(bytes) as int] == rest[first_newline(rest) as int]);
        }
    }
}

/// Cutting at the newlines loses nothing but the newlines: there is at least
/// one piece, and the pieces joined with newlines are the bytes again.
pub proof fn lemma_split_then_join(bytes: Seq<u8>)
    ensures
        split_at_newlines(bytes).len() >= 1,
        join_with_newlines(split_at_newlines(bytes)) == bytes,
    decreases bytes.len(),
{
    let cut = first_newline(bytes);
    lemma_first_newline_bounded(bytes);
    lemma_no_newline_before_first(bytes);
    if cut < bytes.len() {
        let head = bytes.subrange(0, cut as int);
        let rest = bytes.subrange(cut as int + 1, bytes.len() as int);
        lemma_split_then_join(rest);
        let pieces = split_at_newlines(bytes);
        assert(pieces.drop_first() =~= split_at_newlines(rest));
        assert(bytes[cut as int] == NEWLINE) by {
            lemma_first_newline_is_newline(bytes);
        }
        assert(head + seq![NEWLINE] + rest =~= bytes);
    }
}

/// No piece holds a newline.
pub proof fn lemma_pieces_hold_no_newline(bytes: Seq<u8>)
    ensures
        forall|i: int, j: int|
            0 <= i < split_at_newlines(bytes).len() && 0 <= j < split_at_newlines(bytes)[i].len()
                ==> split_at_newlines(bytes)[i][j] != NEWLINE,
    decreases bytes.len(),
{
    let cut = first_newline(bytes);
    let pieces = split_at_newlines(bytes);
    lemma_first_newline_bounded(bytes);
    lemma_no_newline_before_first(bytes);
    if cut < bytes.len() {
        let rest = bytes.subrange(cut as int + 1, bytes.len() as int);
        lemma_pieces_hold_no_newline(rest);
        assert forall|i: int, j: int| 0 <= i < pieces.len() && 0 <= j < pieces[i].len() implies
            pieces[i][j] != NEWLINE by {
            if i > 0 {
                assert(pieces[i] == split_at_newlines(rest)[i - 1]);
            }
        }
    }
}

/// The UTF-8 bytes of each row.
pub open spec fn rows_as_bytes(rows: Seq<String>) -> Seq<Seq<u8>> {
    Seq::new(rows.len(), |i: int| encode_utf8(rows[i]@))
}

/// A place before which no newline stands, and which holds a newline or is
/// the end, is where the first newline stands.
proof fn lemma_first_newline_found(bytes: Seq<u8>, cut: int)
    requires
        0 <= cut <= bytes.len(),
        forall|j: int| 0 <= j < cut ==> bytes[j] != NEWLINE,
        cut < bytes.len() ==> bytes[cut] == NEWLINE,
    ensures
        first_newline(bytes) == cut,
    decreases cut,
{
    if cut > 0 {
        lemma_first_newline_found(bytes.drop_first(), cut - 1);
    }
}

/// Cuts the text of the book into its rows at each newline. The rows are
/// the pieces between the newlines, in order; what follows the last newline
/// is a row too, even when it is empty.
pub fn split_rows(text: &str) -> (rows: Vec<String>)
    ensures
        rows_as_bytes(rows@) == split_at_newlines(encode_utf8(text@)),
{
    let mut rows: Vec<String> = Vec::new();
    let mut rest: &str = text;
    loop
        invariant
            split_at_newlines(encode_utf8(text@)) == rows_as_bytes(rows@) + split_at_newlines(
                encode_utf8(rest@),
            ),
        decreases encode_utf8(rest@).len(),
    {
        let bytes = rest.as_bytes();
        let length: usize = bytes.len();
        let mut cut: usize = 0;
        while cut < length && bytes[cut] != NEWLINE
            invariant
                cut <= length == bytes@.len(),
                forall|j: int| 0 <= j < cut ==> bytes@[j] != NEWLINE,
            decreases length - cut,
        {
            cut = cut + 1;
        }
        proof {
            lemma_first_newline_found(bytes@, cut as int);
            encode_utf8_valid_utf8(rest@);
            if cut < length {
                assert(is_leading_byte_width_1(bytes@[cut as int]));
                is_char_boundary_iff_is_leading_byte(bytes@, cut as int);
            } else {
                is_char_boundary_start_end_of_seq(bytes@);
            }
        }
        let (row, tail) = rest.split_at(cut);
        let owned = row.to_owned();
        let ghost before = rows@;
        rows.push(owned);
        proof {
            assert(rows_as_bytes(rows@) =~= rows_as_bytes(before) + seq![
                bytes@.subrange(0, cut as int),
            ]);
        }
        if cut == length {
            proof {
                assert(bytes@.subrange(0, cut as int) =~= bytes@);
            }
            return rows;
        }
        proof {
            let tail_bytes = tail.spec_bytes();
            encode_utf8_valid_utf8(tail@);
            assert(tail_bytes[0] == NEWLINE);
            assert(is_char_boundary(tail_bytes, 1)) by {
                reveal_with_fuel(is_char_boundary, 2);
                reveal_with_fuel(valid_utf8, 2);
            }
        }
        let (_, after) = tail.split_at(1);
        proof {
            assert(after.spec_bytes() =~= bytes@.subrange(cut + 1, length as int));
        }
        rest = after;
    }
}

} // verus!
