//! Text columns of fixed width: a text is stored as its bytes, followed by
//! zero bytes up to the width of the column, and read back by dropping the
//! zero bytes at the end.

use vstd::prelude::*;
use vstd::utf8::{
    char_is_scalar, char_u32_cast, encode_scalar, encode_utf8, encode_utf8_valid_utf8,
    has_width_1_encoding, is_char_boundary, is_char_boundary_iff_not_is_continuation_byte,
    is_continuation_byte, is_scalar, valid_utf8, valid_utf8_split,
};

verus! {

/// `text`, followed by zero bytes up to `width` bytes in all.
pub open spec fn padded(text: Seq<u8>, width: nat) -> Seq<u8>
    recommends
        text.len() <= width,
{
    text + Seq::new((width - text.len()) as nat, |i: int| 0u8)
}

/// The length of `field` without the zero bytes at its end.
pub open spec fn trimmed_len(field: Seq<u8>) -> nat
    decreases field.len(),
{
    if field.len() == 0 || field.last() != 0 {
        field.len()
    } else {
        trimmed_len(field.drop_last())
    }
}

/// `field` without the zero bytes at its end.
pub open spec fn trimmed(field: Seq<u8>) -> Seq<u8> {
    field.take(trimmed_len(field) as int)
}

/// Whether `text` is empty or ends in a byte other than zero, so that
/// padding and trimming give it back.
pub open spec fn ends_in_text(text: Seq<u8>) -> bool {
    text.len() == 0 || text.last() != 0
}

/// What `trimmed_len` is, said without recursion: everything from there on
/// is zero, and the byte before it, if there is one, is not.
pub proof fn lemma_trimmed_len(field: Seq<u8>)
    ensures
        trimmed_len(field) <= field.len(),
        forall|i: int| trimmed_len(field) <= i < field.len() ==> field[i] == 0,
        trimmed_len(field) > 0 ==> field[trimmed_len(field) - 1] != 0,
        ends_in_text(trimmed(field)),
    decreases field.len(),
{
    if field.len() > 0 && field.last() == 0 {
        let rest = field.drop_last();
        lemma_trimmed_len(rest);
        assert forall|i: int| trimmed_len(field) <= i < field.len() implies field[i] == 0 by {
            if i < rest.len() {
                assert(field[i] == rest[i]);
            }
        }
    }
}

/// Zero bytes added at the end do not change what trimming gives.
pub proof fn lemma_trimmed_padded(text: Seq<u8>, width: nat)
    requires
        text.len() <= width,
    ensures
        trimmed(padded(text, width)) == trimmed(text),
    decreases width - text.len(),
{
    if text.len() < width {
        let shorter = padded(text, (width - 1) as nat);
        assert(padded(text, width).drop_last() =~= shorter);
        lemma_trimmed_padded(text, (width - 1) as nat);
        lemma_trimmed_len(shorter);
    }
}

/// Dropping the zero bytes at the end of well-formed UTF-8 leaves well-formed
/// UTF-8: a zero byte is a character of its own.
pub proof fn lemma_trimmed_valid_utf8(bytes: Seq<u8>)
    requires
        valid_utf8(bytes),
    ensures
        valid_utf8(trimmed(bytes)),
    decreases bytes.len(),
{
    if bytes.len() == 0 || bytes.last() != 0 {
        assert(trimmed(bytes) =~= bytes);
    } else {
        let last = bytes.len() - 1;
        is_char_boundary_iff_not_is_continuation_byte(bytes, last);
        valid_utf8_split(bytes, last);
        assert(bytes.subrange(0, last) =~= bytes.drop_last());
        lemma_trimmed_valid_utf8(bytes.drop_last());
        lemma_trimmed_len(bytes.drop_last());
        assert(trimmed(bytes) =~= trimmed(bytes.drop_last()));
    }
}

/// The bytes of a text, once padded and trimmed, are well-formed UTF-8.
pub proof fn lemma_text_column_valid_utf8(chars: Seq<char>, width: nat)
    requires
        encode_utf8(chars).len() <= width,
    ensures
        valid_utf8(trimmed(padded(encode_utf8(chars), width))),
{
    encode_utf8_valid_utf8(chars);
    lemma_trimmed_padded(encode_utf8(chars), width);
    lemma_trimmed_valid_utf8(encode_utf8(chars));
}

/// `text` without the NUL characters at its end.
pub open spec fn without_nuls(text: Seq<char>) -> Seq<char>
    decreases text.len(),
{
    if text.len() == 0 || text.last() != '\0' {
        text
    } else {
        without_nuls(text.drop_last())
    }
}

/// Whether `text` is empty or ends in a character other than NUL.
pub open spec fn has_no_nul_at_end(text: Seq<char>) -> bool {
    text.len() == 0 || text.last() != '\0'
}

/// The UTF-8 encoding of a character ends in a zero byte only if the
/// character is NUL.
proof fn lemma_encode_scalar_last(scalar: u32)
    requires
        is_scalar(scalar),
    ensures
        encode_scalar(scalar).len() > 0,
        encode_scalar(scalar).last() == 0 <==> scalar == 0,
{
    if has_width_1_encoding(scalar) {
        assert(((scalar & 0x7F) as u8 == 0) <==> scalar == 0) by (bit_vector)
            requires
                scalar <= 0x7F,
        ;
    } else {
        assert(0x80u8 | (scalar & 0x3F) as u8 != 0) by (bit_vector);
    }
}

/// The UTF-8 encoding of two texts, one after the other, is the encoding of
/// the one followed by the encoding of the other.
pub proof fn lemma_encode_utf8_concat(a: Seq<char>, b: Seq<char>)
    ensures
        encode_utf8(a + b) == encode_utf8(a) + encode_utf8(b),
    decreases a.len(),
{
    if a.len() > 0 {
        assert((a + b).drop_first() =~= a.drop_first() + b);
        lemma_encode_utf8_concat(a.drop_first(), b);
    }
}

/// The bytes of a text end in a zero byte exactly if the text ends in NUL.
pub proof fn lemma_encode_utf8_end(text: Seq<char>)
    ensures
        encode_utf8(text).len() == 0 <==> text.len() == 0,
        ends_in_text(encode_utf8(text)) <==> has_no_nul_at_end(text),
        text.len() > 0 && text.last() == '\0' ==> encode_utf8(text).drop_last() == encode_utf8(
            text.drop_last(),
        ),
{
    if text.len() > 0 {
        let last = text.last();
        char_is_scalar(last);
        lemma_encode_scalar_last(last as u32);
        assert(text =~= text.drop_last() + seq![last]);
        lemma_encode_utf8_concat(text.drop_last(), seq![last]);
        assert(encode_utf8(seq![last]) =~= encode_scalar(last as u32)) by {
            reveal_with_fuel(encode_utf8, 2);
        }
        let bytes = encode_utf8(text.drop_last()) + encode_scalar(last as u32);
        assert(encode_utf8(text) == bytes);
        assert(last == '\0' <==> last as u32 == 0) by {
            char_u32_cast(last, last as u32);
            char_u32_cast('\0', 0u32);
        }
        if last == '\0' {
            assert(encode_scalar(0u32) =~= seq![0u8]) by {
                assert((0u32 & 0x7F) as u8 == 0) by (bit_vector);
            }
        }
    }
}

/// Trimming the bytes of a text gives the bytes of the text without the
/// NUL characters at its end.
pub proof fn lemma_trimmed_encode_utf8(text: Seq<char>)
    ensures
        trimmed(encode_utf8(text)) == encode_utf8(without_nuls(text)),
    decreases text.len(),
{
    lemma_encode_utf8_end(text);
    let bytes = encode_utf8(text);
    if text.len() == 0 || text.last() != '\0' {
        assert(trimmed(bytes) =~= bytes);
    } else {
        lemma_trimmed_encode_utf8(text.drop_last());
        lemma_trimmed_len(bytes.drop_last());
    }
}

/// Copies `text` into a field of `N` bytes and fills the rest with zeros.
pub fn pad_text<const N: usize>(text: &[u8]) -> (field: [u8; N])
    requires
        text@.len() <= N,
    ensures
        field@ == padded(text@, N as nat),
{
    let mut field = [0u8; N];
    let mut i: usize = 0;
    while i < text.len()
        invariant
            i <= text@.len() <= N,
            forall|j: int| 0 <= j < i ==> field@[j] == text@[j],
            forall|j: int| i <= j < N ==> field@[j] == 0,
        decreases text@.len() - i,
    {
        field[i] = text[i];
        i += 1;
    }
    field
}

/// The length of `field` without the zero bytes at its end.
pub fn text_len(field: &[u8]) -> (n: usize)
    ensures
        n == trimmed_len(field@),
        n <= field@.len(),
{
    let mut n: usize = field.len();
    assert(field@.take(n as int) =~= field@);
    while n > 0 && field[n - 1] == 0
        invariant
            n <= field@.len(),
            trimmed_len(field@) == trimmed_len(field@.take(n as int)),
        decreases n,
    {
        assert(field@.take(n as int).drop_last() =~= field@.take(n - 1));
        n -= 1;
    }
    n
}

} // verus!
