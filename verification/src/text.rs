//! Small string helpers shared by the rest of the library.

use vstd::prelude::*;

verus! {

/// `String::push` appends one character to the end of the string.
pub assume_specification[ String::push ](s: &mut String, c: char)
    ensures
        final(s)@ == old(s)@.push(c),
;

/// Whether `c` is white space, as `char::is_whitespace` has it.
pub uninterp spec fn is_white_space(c: char) -> bool;

/// `char::is_whitespace` says whether the character is white space.
pub assume_specification[ char::is_whitespace ](c: char) -> (white: bool)
    ensures
        white == is_white_space(c),
;

/// The text that `str::to_lowercase` makes of `text`.
pub uninterp spec fn lowercased(text: Seq<char>) -> Seq<char>;

/// `str::to_lowercase` gives the lower-case form of the text.
pub assume_specification[ str::to_lowercase ](text: &str) -> (lower: String)
    ensures
        lower@ == lowercased(text@),
;

/// Whether `text` holds nothing but white space.
pub open spec fn blank(text: Seq<char>) -> bool {
    forall|i: int| 0 <= i < text.len() ==> is_white_space(#[trigger] text[i])
}

/// Decides whether `text` holds nothing but white space.
pub fn is_blank(text: &str) -> (all_white: bool)
    ensures
        all_white == blank(text@),
{
    for c in it: text.chars()
        invariant
            it.seq() == text@,
            forall|i: int| 0 <= i < it.index() ==> is_white_space(#[trigger] text@[i]),
    {
        if !c.is_whitespace() {
            assert(!is_white_space(text@[it.index() as int]));
            return false;
        }
    }
    true
}

/// `text` without the white space at its beginning.
pub open spec fn trim_start(text: Seq<char>) -> Seq<char>
    decreases text.len(),
{
    if text.len() > 0 && is_white_space(text[0]) {
        trim_start(text.drop_first())
    } else {
        text
    }
}

/// `text` without the white space at its end.
pub open spec fn trim_end(text: Seq<char>) -> Seq<char>
    decreases text.len(),
{
    if text.len() > 0 && is_white_space(text.last()) {
        trim_end(text.drop_last())
    } else {
        text
    }
}

/// `text` without the white space at its beginning and at its end.
pub open spec fn trimmed(text: Seq<char>) -> Seq<char> {
    trim_end(trim_start(text))
}

/// The characters of `text` without the white space at its beginning and at
/// its end.
pub fn trim(text: &str) -> (kept: Vec<char>)
    ensures
        kept@ == trimmed(text@),
{
    let chars = chars_of(text);
    let mut from: usize = 0;
    assert(chars@.subrange(0, chars.len() as int) =~= chars@);
    while from < chars.len() && chars[from].is_whitespace()
        invariant
            from <= chars.len(),
            trim_start(chars@) == trim_start(chars@.subrange(from as int, chars.len() as int)),
        decreases chars.len() - from,
    {
        assert(chars@.subrange(from as int, chars.len() as int).drop_first() =~= chars@.subrange(
            from + 1,
            chars.len() as int,
        ));
        from = from + 1;
    }
    let mut to: usize = chars.len();
    while to > from && chars[to - 1].is_whitespace()
        invariant
            from <= to <= chars.len(),
            trim_end(chars@.subrange(from as int, chars.len() as int)) == trim_end(
                chars@.subrange(from as int, to as int),
            ),
        decreases to,
    {
        assert(chars@.subrange(from as int, to as int).drop_last() =~= chars@.subrange(
            from as int,
            to - 1,
        ));
        to = to - 1;
    }
    let mut kept: Vec<char> = Vec::new();
    let mut i: usize = from;
    while i < to
        invariant
            from <= i <= to <= chars.len(),
            kept@ == chars@.subrange(from as int, i as int),
        decreases to - i,
    {
        kept.push(chars[i]);
        assert(chars@.subrange(from as int, i + 1) =~= chars@.subrange(from as int, i as int).push(
            chars@[i as int],
        ));
        i = i + 1;
    }
    kept
}

/// The string that holds `chars`.
pub fn string_of(chars: &Vec<char>) -> (text: String)
    ensures
        text@ == chars@,
{
    let mut text = String::new();
    push_chars(&mut text, chars, 0, chars.len());
    assert(chars@.subrange(0, chars.len() as int) =~= chars@);
    text
}

/// The characters of `s`, in order.
pub fn chars_of(s: &str) -> (v: Vec<char>)
    ensures
        v@ == s@,
{
    let mut v: Vec<char> = Vec::new();
    for c in it: s.chars()
        invariant
            v@ == it.seq().take(it.index() as int),
    {
        v.push(c);
    }
    v
}

/// The text of a string that may be absent.
pub open spec fn text_of(s: Option<String>) -> Option<Seq<char>> {
    match s {
        Some(s) => Some(s@),
        None => None,
    }
}

/// Whether `a` and `b` are the same text.
pub fn same_text(a: &str, b: &str) -> (same: bool)
    ensures
        same == (a@ == b@),
{
    let x = a.as_bytes();
    let y = b.as_bytes();
    proof {
        vstd::utf8::encode_utf8_decode_utf8(a@);
        vstd::utf8::encode_utf8_decode_utf8(b@);
    }
    if x.len() != y.len() {
        return false;
    }
    let mut i: usize = 0;
    while i < x.len()
        invariant
            i <= x.len() == y.len(),
            x@.take(i as int) == y@.take(i as int),
            (a@ == b@) <==> x@ == y@,
        decreases x.len() - i,
    {
        if x[i] != y[i] {
            return false;
        }
        assert(x@.take(i + 1) =~= x@.take(i as int).push(x@[i as int]));
        assert(y@.take(i + 1) =~= y@.take(i as int).push(y@[i as int]));
        i = i + 1;
    }
    assert(x@ =~= x@.take(i as int) && y@ =~= y@.take(i as int));
    true
}

/// Whether `a` comes after `b` when both are compared byte by byte, a proper
/// prefix coming before any of its extensions.
pub open spec fn bytes_after(a: Seq<u8>, b: Seq<u8>) -> bool
    decreases a.len(),
{
    if a.len() == 0 {
        false
    } else if b.len() == 0 {
        true
    } else if a[0] != b[0] {
        a[0] > b[0]
    } else {
        bytes_after(a.drop_first(), b.drop_first())
    }
}

/// Whether the text `a` comes after the text `b` in the order of strings: the
/// order of their UTF-8 encodings, byte by byte.
pub open spec fn text_after(a: Seq<char>, b: Seq<char>) -> bool {
    bytes_after(vstd::utf8::encode_utf8(a), vstd::utf8::encode_utf8(b))
}

/// No byte string comes after itself.
pub proof fn lemma_not_after_itself(a: Seq<u8>)
    ensures
        !bytes_after(a, a),
    decreases a.len(),
{
    if a.len() > 0 {
        lemma_not_after_itself(a.drop_first());
    }
}

/// Of two byte strings at most one comes after the other.
pub proof fn lemma_after_is_one_way(a: Seq<u8>, b: Seq<u8>)
    ensures
        !(bytes_after(a, b) && bytes_after(b, a)),
    decreases a.len(),
{
    if a.len() > 0 && b.len() > 0 && a[0] == b[0] {
        lemma_after_is_one_way(a.drop_first(), b.drop_first());
    }
}

/// Of two different byte strings one comes after the other.
pub proof fn lemma_after_orders_all(a: Seq<u8>, b: Seq<u8>)
    requires
        !bytes_after(a, b),
        !bytes_after(b, a),
    ensures
        a == b,
    decreases a.len(),
{
    if a.len() > 0 && b.len() > 0 {
        lemma_after_orders_all(a.drop_first(), b.drop_first());
        assert(a =~= seq![a[0]] + a.drop_first());
        assert(b =~= seq![b[0]] + b.drop_first());
    } else {
        assert(a =~= b);
    }
}

/// Texts are in one line: of two different ones exactly one comes after the
/// other, and none comes after itself.
pub proof fn lemma_text_order(a: Seq<char>, b: Seq<char>)
    ensures
        !(text_after(a, b) && text_after(b, a)),
        a == b <==> !text_after(a, b) && !text_after(b, a),
{
    let x = vstd::utf8::encode_utf8(a);
    let y = vstd::utf8::encode_utf8(b);
    lemma_after_is_one_way(x, y);
    lemma_not_after_itself(x);
    if !bytes_after(x, y) && !bytes_after(y, x) {
        lemma_after_orders_all(x, y);
        vstd::utf8::encode_utf8_decode_utf8(a);
        vstd::utf8::encode_utf8_decode_utf8(b);
    }
}

/// Decides whether the text `a` comes after the text `b`.
pub fn is_after(a: &str, b: &str) -> (after: bool)
    ensures
        after == text_after(a@, b@),
{
    let x = a.as_bytes();
    let y = b.as_bytes();
    let mut i: usize = 0;
    assert(x@.skip(0) =~= x@ && y@.skip(0) =~= y@);
    while i < x.len() && i < y.len() && x[i] == y[i]
        invariant
            i <= x.len(),
            i <= y.len(),
            bytes_after(x@, y@) == bytes_after(x@.skip(i as int), y@.skip(i as int)),
        decreases x.len() - i,
    {
        assert(x@.skip(i as int).drop_first() =~= x@.skip(i + 1));
        assert(y@.skip(i as int).drop_first() =~= y@.skip(i + 1));
        i = i + 1;
    }
    if i == x.len() {
        false
    } else if i == y.len() {
        true
    } else {
        x[i] > y[i]
    }
}

/// The bytes of a byte string that may be absent.
pub open spec fn bytes_of(bytes: Option<Vec<u8>>) -> Option<Seq<u8>> {
    match bytes {
        Some(bytes) => Some(bytes@),
        None => None,
    }
}

/// Appends the characters `chars[from..to]` to `s`.
pub fn push_chars(s: &mut String, chars: &Vec<char>, from: usize, to: usize)
    requires
        from <= to <= chars.len(),
    ensures
        final(s)@ == old(s)@ + chars@.subrange(from as int, to as int),
{
    let mut i: usize = from;
    while i < to
        invariant
            from <= i <= to <= chars.len(),
            s@ == old(s)@ + chars@.subrange(from as int, i as int),
        decreases to - i,
    {
        s.push(chars[i]);
        i = i + 1;
    }
}

/// Whether `chars[at..]` begins with `part`.
pub fn matches_at(chars: &Vec<char>, at: usize, part: &Vec<char>) -> (found: bool)
    requires
        at <= chars.len(),
    ensures
        found == (at + part.len() <= chars.len() && chars@.subrange(
            at as int,
            at + part.len(),
        ) == part@),
{
    if part.len() > chars.len() - at {
        return false;
    }
    let mut i: usize = 0;
    while i < part.len()
        invariant
            i <= part.len(),
            at + part.len() <= chars.len(),
            chars@.subrange(at as int, at + i) == part@.take(i as int),
        decreases part.len() - i,
    {
        if chars[at + i] != part[i] {
            assert(chars@.subrange(at as int, at + part.len())[i as int] != part@[i as int]);
            return false;
        }
        assert(chars@.subrange(at as int, at + i + 1) =~= chars@.subrange(at as int, at + i).push(
            chars@[at + i],
        ));
        assert(part@.take(i + 1) =~= part@.take(i as int).push(part@[i as int]));
        i = i + 1;
    }
    assert(part@.take(i as int) =~= part@);
    true
}

/// Whether `chars` begins with `prefix`.
pub fn starts_with(chars: &Vec<char>, prefix: &Vec<char>) -> (found: bool)
    ensures
        found == prefix@.is_prefix_of(chars@),
{
    matches_at(chars, 0, prefix)
}

/// Whether `chars` ends with `suffix`.
pub fn ends_with(chars: &Vec<char>, suffix: &Vec<char>) -> (found: bool)
    ensures
        found == suffix@.is_suffix_of(chars@),
{
    if suffix.len() > chars.len() {
        return false;
    }
    matches_at(chars, chars.len() - suffix.len(), suffix)
}

/// The character that stands for the decimal digit `d`.
pub open spec fn digit(d: int) -> char {
    (d + 48) as char
}

/// Whether `c` is one of the ten decimal digits.
pub open spec fn is_digit(c: char) -> bool {
    48 <= c as int <= 57
}

/// The decimal numeral of `n`, with no sign and no leading zero.
pub open spec fn decimal(n: nat) -> Seq<char>
    decreases n,
{
    if n < 10 {
        seq![digit(n as int)]
    } else {
        decimal(n / 10).push(digit((n % 10) as int))
    }
}

/// The number that a string of decimal digits stands for.
pub open spec fn value_of(digits: Seq<char>) -> nat
    decreases digits.len(),
{
    if digits.len() == 0 {
        0
    } else {
        (10 * value_of(digits.drop_last()) + (digits.last() as int - 48)) as nat
    }
}

/// Whether `digits` is the decimal numeral of some number: decimal digits
/// only, at least one, and no leading zero before another digit.
pub open spec fn is_numeral(digits: Seq<char>) -> bool {
    &&& digits.len() > 0
    &&& forall|i: int| 0 <= i < digits.len() ==> is_digit(#[trigger] digits[i])
    &&& digits.len() > 1 ==> digits[0] != digit(0)
}

/// The numeral of a number is a numeral, and stands for that number.
pub proof fn lemma_decimal_is_numeral(n: nat)
    ensures
        is_numeral(decimal(n)),
        value_of(decimal(n)) == n,
        n > 0 ==> decimal(n)[0] != digit(0),
    decreases n,
{
    if n < 10 {
        assert(decimal(n).drop_last() =~= Seq::<char>::empty());
        assert(value_of(Seq::<char>::empty()) == 0);
    } else {
        lemma_decimal_is_numeral(n / 10);
        assert(decimal(n).drop_last() =~= decimal(n / 10));
    }
}

/// A numeral is the numeral of the number it stands for.
pub proof fn lemma_numeral_is_decimal(digits: Seq<char>)
    requires
        is_numeral(digits),
    ensures
        decimal(value_of(digits)) == digits,
        digits[0] != digit(0) ==> value_of(digits) > 0,
    decreases digits.len(),
{
    let last = digits.last() as int - 48;
    if digits.len() == 1 {
        assert(digits.drop_last() =~= Seq::<char>::empty());
        assert(value_of(digits.drop_last()) == 0);
        assert(value_of(digits) == last);
        assert(digits =~= seq![digit(last)]);
    } else {
        let front = digits.drop_last();
        assert(is_numeral(front)) by {
            if front.len() > 1 {
                assert(front[0] == digits[0]);
            }
        }
        if front.len() == 1 {
            assert(front[0] == digits[0]);
        }
        lemma_numeral_is_decimal(front);
        assert(front[0] == digits[0]);
        let v = value_of(front);
        assert(v > 0);
        assert(value_of(digits) == 10 * v + last);
        assert((10 * v + last) / 10 == v && (10 * v + last) % 10 == last);
        assert(digits =~= front.push(digit(last)));
    }
}

/// Distinct numbers have distinct numerals.
pub proof fn lemma_decimal_injective(a: nat, b: nat)
    requires
        decimal(a) == decimal(b),
    ensures
        a == b,
{
    lemma_decimal_is_numeral(a);
    lemma_decimal_is_numeral(b);
}

/// Appends the decimal numeral of `n` to `s`.
pub fn push_decimal(s: &mut String, n: u64)
    ensures
        final(s)@ == old(s)@ + decimal(n as nat),
    decreases n,
{
    if n >= 10 {
        push_decimal(s, n / 10);
    }
    let d: u8 = (n % 10) as u8;
    s.push((d + 48) as char);
    assert(s@ =~= old(s)@ + decimal(n as nat));
}

/// Reads `chars[from..to]` as the decimal numeral of a 64-bit number.
pub fn parse_decimal(chars: &Vec<char>, from: usize, to: usize) -> (number: Option<u64>)
    requires
        from <= to <= chars.len(),
    ensures
        match number {
            Some(n) => chars@.subrange(from as int, to as int) == decimal(n as nat),
            None => forall|n: u64| chars@.subrange(from as int, to as int) != decimal(n as nat),
        },
{
    let ghost digits = chars@.subrange(from as int, to as int);
    if from == to {
        proof {
            assert forall|n: u64| digits != decimal(n as nat) by {
                lemma_decimal_is_numeral(n as nat);
            }
        }
        return None;
    }
    if to - from > 1 && chars[from] == '0' {
        proof {
            assert(digits[0] == digit(0));
            assert forall|n: u64| digits != decimal(n as nat) by {
                lemma_decimal_is_numeral(n as nat);
            }
        }
        return None;
    }
    let mut value: u64 = 0;
    let mut i: usize = from;
    while i < to
        invariant
            from <= i <= to <= chars.len(),
            digits == chars@.subrange(from as int, to as int),
            forall|k: int| 0 <= k < i - from ==> is_digit(#[trigger] digits[k]),
            value == value_of(digits.take(i - from)),
        decreases to - i,
    {
        let c: char = chars[i];
        assert(c == digits[i - from]);
        if c < '0' || c > '9' {
            proof {
                assert(!is_digit(digits[i - from]));
                assert forall|n: u64| digits != decimal(n as nat) by {
                    lemma_decimal_is_numeral(n as nat);
                }
            }
            return None;
        }
        let d: u64 = (c as u8 - 48) as u64;
        proof {
            assert(digits.take(i - from + 1).drop_last() =~= digits.take(i - from));
            assert(digits.take(i - from + 1).last() == c);
        }
        if value > (u64::MAX - d) / 10 {
            proof {
                let upto = digits.take(i - from + 1);
                assert(value_of(upto) == 10 * value + d);
                assert(value_of(upto) > u64::MAX);
                assert forall|n: u64| digits != decimal(n as nat) by {
                    lemma_decimal_is_numeral(n as nat);
                    if digits == decimal(n as nat) {
                        lemma_value_grows(digits, i - from + 1);
                    }
                }
            }
            return None;
        }
        value = 10 * value + d;
        i = i + 1;
    }
    proof {
        assert(digits.take(to - from) =~= digits);
        assert(is_numeral(digits));
        lemma_numeral_is_decimal(digits);
    }
    Some(value)
}

/// A string of digits stands for no less than any of its beginnings does.
pub proof fn lemma_value_grows(digits: Seq<char>, len: int)
    requires
        0 <= len <= digits.len(),
        forall|k: int| len <= k < digits.len() ==> is_digit(#[trigger] digits[k]),
    ensures
        value_of(digits.take(len)) <= value_of(digits),
    decreases digits.len() - len,
{
    if len < digits.len() {
        assert(digits.take(len + 1).drop_last() =~= digits.take(len));
        assert(digits.take(len + 1).last() == digits[len]);
        assert(is_digit(digits[len]));
        lemma_value_grows(digits, len + 1);
    } else {
        assert(digits.take(len) =~= digits);
    }
}

} // verus!
