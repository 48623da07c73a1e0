//! Characters and their bytes: the 7-bit range, the joining characters, and
//! the length of a character and of a text in UTF-8.
use vstd::prelude::*;
use vstd::utf8::{
    encode_scalar, encode_utf8, is_char_boundary, is_continuation_byte, valid_utf8,
};

verus! {

/// The zero-width joiner, which binds neighbouring emoji into one sequence.
pub const ZERO_WIDTH_JOINER: char = '\u{200d}';

/// The variation selector that asks for text presentation.
pub const TEXT_SELECTOR: char = '\u{fe0e}';

/// The variation selector that asks for emoji presentation.
pub const EMOJI_SELECTOR: char = '\u{fe0f}';

/// Whether `c` lies in the 7-bit range.
pub open spec fn is_ascii(c: char) -> bool {
    (c as u32) < 0x80
}

/// Whether `c` is the zero-width joiner or one of the two variation selectors:
/// the characters that attach themselves to the emoji before them.
pub open spec fn is_joining(c: char) -> bool {
    c == ZERO_WIDTH_JOINER || c == EMOJI_SELECTOR || c == TEXT_SELECTOR
}

/// The number of bytes that `c` takes in UTF-8.
pub open spec fn utf8_len(c: char) -> nat {
    encode_scalar(c as u32).len()
}

/// The number of bytes that `text` takes in UTF-8.
pub open spec fn byte_len(text: Seq<char>) -> nat {
    encode_utf8(text).len()
}

/// Whether `c` lies in the 7-bit range.
pub fn char_is_ascii(c: char) -> (yes: bool)
    ensures
        yes == is_ascii(c),
{
    (c as u32) < 0x80
}

/// Whether `c` is the zero-width joiner or one of the two variation selectors.
pub fn char_is_joining(c: char) -> (yes: bool)
    ensures
        yes == is_joining(c),
{
    c == ZERO_WIDTH_JOINER || c == EMOJI_SELECTOR || c == TEXT_SELECTOR
}

/// The number of bytes that `c` takes in UTF-8: one to four.
pub fn char_len(c: char) -> (length: usize)
    ensures
        length == utf8_len(c),
        1 <= length <= 4,
{
    let scalar: u32 = c as u32;
    if scalar < 0x80 {
        1
    } else if scalar < 0x800 {
        2
    } else if scalar < 0x1_0000 {
        3
    } else {
        4
    }
}

/// UTF-8 encodes a text piece by piece.
pub proof fn lemma_encode_concat(a: Seq<char>, b: Seq<char>)
    ensures
        encode_utf8(a + b) == encode_utf8(a) + encode_utf8(b),
    decreases a.len(),
{
    if a.len() == 0 {
        assert(a + b =~= b);
        assert(encode_utf8(a) + encode_utf8(b) =~= encode_utf8(b));
    } else {
        lemma_encode_concat(a.drop_first(), b);
        assert((a + b).drop_first() =~= a.drop_first() + b);
        assert(encode_utf8(a + b) =~= encode_utf8(a) + encode_utf8(b));
    }
}

/// A text that grows by one character grows by that character's bytes.
pub proof fn lemma_encode_push(text: Seq<char>, c: char)
    ensures
        encode_utf8(text.push(c)) == encode_utf8(text) + encode_scalar(c as u32),
        byte_len(text.push(c)) == byte_len(text) + utf8_len(c),
        utf8_len(c) >= 1,
{
    reveal_with_fuel(encode_utf8, 2);
    lemma_encode_concat(text, seq![c]);
    assert(text.push(c) =~= text + seq![c]);
    assert(seq![c].drop_first() =~= Seq::<char>::empty());
    assert(encode_utf8(seq![c]) =~= encode_scalar(c as u32));
}

/// A prefix of a text takes no more bytes than the text.
pub proof fn lemma_prefix_len(text: Seq<char>, k: int)
    requires
        0 <= k <= text.len(),
    ensures
        byte_len(text.take(k)) <= byte_len(text),
{
    lemma_encode_concat(text.take(k), text.skip(k));
    assert(text.take(k) + text.skip(k) =~= text);
}

/// A text that is not empty takes at least one byte.
pub proof fn lemma_bytes_of_nonempty(text: Seq<char>)
    requires
        text.len() > 0,
    ensures
        byte_len(text) > 0,
{
    lemma_encode_push(text.drop_last(), text.last());
    assert(text.drop_last().push(text.last()) =~= text);
}

/// The bytes of one character are a valid text.
pub proof fn lemma_scalar_is_valid(c: char)
    ensures
        valid_utf8(encode_scalar(c as u32)),
{
    broadcast use vstd::utf8::encode_utf8_valid_utf8;

    lemma_encode_push(Seq::<char>::empty(), c);
    assert(Seq::<u8>::empty() + encode_scalar(c as u32) =~= encode_scalar(c as u32));
}

/// A valid text does not begin in the middle of a character.
pub proof fn lemma_first_byte_leads(bytes: Seq<u8>)
    requires
        valid_utf8(bytes),
        bytes.len() > 0,
    ensures
        !is_continuation_byte(bytes[0]),
{
}

/// Where two valid texts are joined, a character begins.
pub proof fn lemma_boundary_between(first: Seq<u8>, second: Seq<u8>)
    requires
        valid_utf8(first),
        valid_utf8(second),
    ensures
        is_char_boundary(first + second, first.len() as int),
{
    vstd::utf8::valid_utf8_concat(first, second);
    if second.len() == 0 {
        assert(first + second =~= first);
        vstd::utf8::is_char_boundary_start_end_of_seq(first);
    } else {
        lemma_first_byte_leads(second);
        vstd::utf8::is_char_boundary_iff_not_is_continuation_byte(
            first + second,
            first.len() as int,
        );
    }
}

/// A character boundary of a valid text is one of every valid extension.
pub proof fn lemma_boundary_stays(first: Seq<u8>, second: Seq<u8>, index: int)
    requires
        valid_utf8(first),
        valid_utf8(second),
        0 <= index <= first.len(),
        is_char_boundary(first, index),
    ensures
        is_char_boundary(first + second, index),
{
    if index == first.len() {
        lemma_boundary_between(first, second);
    } else {
        vstd::utf8::valid_utf8_concat(first, second);
        vstd::utf8::is_char_boundary_iff_not_is_continuation_byte(first, index);
        vstd::utf8::is_char_boundary_iff_not_is_continuation_byte(first + second, index);
    }
}

/// `String::with_capacity` gives an empty string. It may panic where the
/// capacity is more than `isize::MAX` bytes.
pub assume_specification[ String::with_capacity ](capacity: usize) -> (text: String)
    requires
        capacity <= isize::MAX,
    ensures
        text@ == Seq::<char>::empty(),
;

/// `String::push` appends one character at the end.
pub assume_specification[ String::push ](text: &mut String, c: char)
    ensures
        final(text)@ == old(text)@.push(c),
;

/// `String::clear` removes all the characters.
pub assume_specification[ String::clear ](text: &mut String)
    ensures
        final(text)@ == Seq::<char>::empty(),
;

} // verus!
