//! The form of the timestamps in reading-progress records, and the reason
//! why two of them can be compared as texts: in that form the later instant
//! has the text that comes after the other.

use crate::text::{bytes_after, chars_of, is_digit, text_after};
use vstd::prelude::*;
use vstd::utf8::encode_utf8;

verus! {

/// The number of characters in a timestamp.
pub const TIMESTAMP_LEN: usize = 24;

/// Whether a separator stands at place `i` of a timestamp, and not a digit.
pub open spec fn is_separator_place(i: int) -> bool {
    i == 4 || i == 7 || i == 10 || i == 13 || i == 16 || i == 19 || i == 23
}

/// The separator that stands at place `i` of a timestamp.
pub open spec fn separator_at(i: int) -> char {
    if i == 4 || i == 7 {
        '-'
    } else if i == 10 {
        'T'
    } else if i == 13 || i == 16 {
        ':'
    } else if i == 19 {
        '.'
    } else {
        'Z'
    }
}

/// Whether `text` has the form of a timestamp: four digits of the year, two
/// of the month, two of the day, `T`, two digits each of the hour, the minute
/// and the second, three of the milliseconds, and `Z`, as in
/// `2024-01-02T03:04:05.678Z`.
pub open spec fn well_formed(text: Seq<char>) -> bool {
    &&& text.len() == TIMESTAMP_LEN
    &&& forall|i: int|
        0 <= i < TIMESTAMP_LEN ==> if is_separator_place(i) {
            #[trigger] text[i] == separator_at(i)
        } else {
            is_digit(text[i])
        }
}

/// Decides whether `text` has the form of a timestamp.
pub fn is_timestamp(text: &str) -> (is: bool)
    ensures
        is == well_formed(text@),
{
    let chars = chars_of(text);
    if chars.len() != TIMESTAMP_LEN {
        return false;
    }
    let mut i: usize = 0;
    while i < TIMESTAMP_LEN
        invariant
            i <= TIMESTAMP_LEN,
            chars@ == text@,
            chars.len() == TIMESTAMP_LEN,
            forall|k: int|
                0 <= k < i ==> if is_separator_place(k) {
                    #[trigger] chars[k] == separator_at(k)
                } else {
                    is_digit(chars[k])
                },
        decreases TIMESTAMP_LEN - i,
    {
        let c: char = chars[i];
        let fits = if i == 4 || i == 7 {
            c == '-'
        } else if i == 10 {
            c == 'T'
        } else if i == 13 || i == 16 {
            c == ':'
        } else if i == 19 {
            c == '.'
        } else if i == 23 {
            c == 'Z'
        } else {
            c >= '0' && c <= '9'
        };
        if !fits {
            assert(!(if is_separator_place(i as int) {
                chars[i as int] == separator_at(i as int)
            } else {
                is_digit(chars[i as int])
            }));
            return false;
        }
        i = i + 1;
    }
    true
}

/// The number that the digits among the first `n` characters of a timestamp
/// make when they are read as one numeral: the year, then the month, and so
/// on down to the milliseconds.
pub open spec fn reading(text: Seq<char>, n: int) -> int
    decreases n,
{
    if n <= 0 {
        0
    } else if is_separator_place(n - 1) {
        reading(text, n - 1)
    } else {
        10 * reading(text, n - 1) + (text[n - 1] as int - 48)
    }
}

/// The instant that a timestamp names, as one number: of two timestamps the
/// later one has the greater number.
pub open spec fn instant(text: Seq<char>) -> int {
    reading(text, TIMESTAMP_LEN as int)
}

/// How the first `n` bytes of `x` compare with those of `y`: 1 where the
/// first byte in which they differ is greater in `x`, -1 where it is greater
/// in `y`, 0 where they do not differ.
spec fn compared(x: Seq<u8>, y: Seq<u8>, n: int) -> int
    decreases n,
{
    if n <= 0 {
        0
    } else if compared(x, y, n - 1) != 0 {
        compared(x, y, n - 1)
    } else if x[n - 1] > y[n - 1] {
        1
    } else if x[n - 1] < y[n - 1] {
        -1
    } else {
        0
    }
}

/// How what follows the first `i` bytes of `x` compares with what follows
/// them in `y`, in the order of byte strings.
spec fn rest_compared(x: Seq<u8>, y: Seq<u8>, i: int) -> int {
    if bytes_after(x.skip(i), y.skip(i)) {
        1
    } else if bytes_after(y.skip(i), x.skip(i)) {
        -1
    } else {
        0
    }
}

proof fn lemma_compared_from(x: Seq<u8>, y: Seq<u8>, i: int)
    requires
        x.len() == y.len(),
        0 <= i <= x.len(),
    ensures
        compared(x, y, x.len() as int) == if compared(x, y, i) != 0 {
            compared(x, y, i)
        } else {
            rest_compared(x, y, i)
        },
    decreases x.len() - i,
{
    if i < x.len() {
        lemma_compared_from(x, y, i + 1);
        assert(x.skip(i).drop_first() =~= x.skip(i + 1));
        assert(y.skip(i).drop_first() =~= y.skip(i + 1));
        assert(x.skip(i)[0] == x[i] && y.skip(i)[0] == y[i]);
    } else {
        assert(x.skip(i).len() == 0 && y.skip(i).len() == 0);
    }
}

proof fn lemma_compared_is_order(x: Seq<u8>, y: Seq<u8>)
    requires
        x.len() == y.len(),
    ensures
        bytes_after(x, y) <==> compared(x, y, x.len() as int) == 1,
        bytes_after(y, x) <==> compared(x, y, x.len() as int) == -1,
{
    lemma_compared_from(x, y, 0);
    assert(x.skip(0) =~= x && y.skip(0) =~= y);
    crate::text::lemma_after_is_one_way(x, y);
}

proof fn lemma_compared_is_reading(a: Seq<char>, b: Seq<char>, n: int)
    requires
        well_formed(a),
        well_formed(b),
        0 <= n <= TIMESTAMP_LEN,
    ensures
        compared(encode_utf8(a), encode_utf8(b), n) == 1 <==> reading(a, n) > reading(b, n),
        compared(encode_utf8(a), encode_utf8(b), n) == 0 <==> reading(a, n) == reading(b, n),
        compared(encode_utf8(a), encode_utf8(b), n) == -1 <==> reading(a, n) < reading(b, n),
    decreases n,
{
    if n > 0 {
        lemma_compared_is_reading(a, b, n - 1);
        lemma_bytes_of_timestamp(a);
        lemma_bytes_of_timestamp(b);
        let x = encode_utf8(a);
        let y = encode_utf8(b);
        assert(x[n - 1] == a[n - 1] as u8 && y[n - 1] == b[n - 1] as u8);
        if is_separator_place(n - 1) {
            assert(a[n - 1] == separator_at(n - 1) && b[n - 1] == separator_at(n - 1));
        } else {
            assert(is_digit(a[n - 1]) && is_digit(b[n - 1]));
        }
    }
}

proof fn lemma_bytes_of_timestamp(a: Seq<char>)
    requires
        well_formed(a),
    ensures
        encode_utf8(a).len() == TIMESTAMP_LEN,
        forall|i: int| 0 <= i < TIMESTAMP_LEN ==> #[trigger] encode_utf8(a)[i] == a[i] as u8,
{
    assert(vstd::utf8::is_ascii_chars(a)) by {
        assert forall|i: int| 0 <= i < a.len() implies '\0' <= #[trigger] a[i] <= '\u{7f}' by {
            if is_separator_place(i) {
                assert(a[i] == separator_at(i));
            } else {
                assert(is_digit(a[i]));
            }
        }
    }
    vstd::utf8::is_ascii_chars_encode_utf8(a);
}

/// Timestamps are ordered as the instants they name. Of two texts in the
/// form of a timestamp, the one that comes after the other as a text is the
/// one with the later instant, and only equal texts name the same instant.
pub proof fn lemma_order_is_chronological(a: Seq<char>, b: Seq<char>)
    requires
        well_formed(a),
        well_formed(b),
    ensures
        text_after(a, b) <==> instant(a) > instant(b),
        a == b <==> instant(a) == instant(b),
{
    lemma_bytes_of_timestamp(a);
    lemma_bytes_of_timestamp(b);
    lemma_compared_is_order(encode_utf8(a), encode_utf8(b));
    lemma_compared_is_reading(a, b, TIMESTAMP_LEN as int);
    crate::text::lemma_text_order(a, b);
}

} // verus!
