//! Work on strings that the encoder needs: comparing two of them, and writing a
//! number in decimal.

use vstd::prelude::*;
use vstd::string::StringSliceAdditionalSpecFns;
use vstd::string::StrSliceExecFns;
use vstd::utf8::encode_utf8;

verus! {

/// The decimal digit for a number below ten.
pub open spec fn digit(d: nat) -> char
    recommends
        d < 10,
{
    (48 + d) as char
}

/// A number in decimal: most significant digit first, no sign, no leading zero.
pub open spec fn decimal(n: nat) -> Seq<char>
    decreases n,
{
    if n < 10 {
        seq![digit(n)]
    } else {
        decimal(n / 10).push(digit(n % 10))
    }
}

/// The number that a run of decimal digits, given as ASCII bytes, spells.
pub open spec fn digits_value(digits: Seq<u8>) -> int
    decreases digits.len(),
{
    if digits.len() == 0 {
        0
    } else {
        10 * digits_value(digits.drop_last()) + (digits.last() - 48)
    }
}

/// Tells whether every byte is an ASCII decimal digit.
pub open spec fn all_digits(digits: Seq<u8>) -> bool {
    forall|i: int| 0 <= i < digits.len() ==> 48 <= #[trigger] digits[i] <= 57
}

/// The signed 64-bit integer that a text, given as UTF-8, spells in decimal: an
/// optional sign, then at least one digit and nothing else. `None` for any other text
/// and for a number outside the signed 64-bit range.
pub open spec fn parse_i64(utf8: Seq<u8>) -> Option<i64> {
    let signed = utf8.len() > 0 && (utf8[0] == 45 || utf8[0] == 43);
    let digits = if signed {
        utf8.subrange(1, utf8.len() as int)
    } else {
        utf8
    };
    let value = if signed && utf8[0] == 45 {
        -digits_value(digits)
    } else {
        digits_value(digits)
    };
    if digits.len() > 0 && all_digits(digits) && i64::MIN <= value <= i64::MAX {
        Some(value as i64)
    } else {
        None
    }
}

/// The value of a hexadecimal digit, given as an ASCII byte of either case.
pub open spec fn hex_value(b: u8) -> Option<int> {
    if 48 <= b <= 57 {
        Some(b - 48)
    } else if 97 <= b <= 102 {
        Some(b - 87)
    } else if 65 <= b <= 70 {
        Some(b - 55)
    } else {
        None
    }
}

/// Tells whether a text, given as UTF-8, is twelve bytes written as 24 hexadecimal
/// digits.
pub open spec fn is_hex24(utf8: Seq<u8>) -> bool {
    utf8.len() == 24 && forall|i: int| 0 <= i < 24 ==> (#[trigger] hex_value(utf8[i])) is Some
}

/// The twelve bytes that 24 hexadecimal digits spell, two digits to a byte, the high
/// one first.
pub open spec fn hex24_bytes(utf8: Seq<u8>) -> Seq<u8>
    recommends
        is_hex24(utf8),
{
    Seq::new(12, |i: int| (16 * hex_value(utf8[2 * i])->0 + hex_value(utf8[2 * i + 1])->0) as u8)
}

/// `c` put into an ascending run of characters at its place, behind its equals.
pub open spec fn insert_sorted(run: Seq<char>, c: char) -> Seq<char>
    decreases run.len(),
{
    if run.len() == 0 {
        seq![c]
    } else if run.last() as u32 <= c as u32 {
        run.push(c)
    } else {
        insert_sorted(run.drop_last(), c).push(run.last())
    }
}

/// The characters of a text in ascending order.
pub open spec fn sorted(text: Seq<char>) -> Seq<char>
    decreases text.len(),
{
    if text.len() == 0 {
        text
    } else {
        insert_sorted(sorted(text.drop_last()), text.last())
    }
}

/// Two strings with the same UTF-8 form are the same string.
pub proof fn lemma_utf8_injective(a: Seq<char>, b: Seq<char>)
    requires
        encode_utf8(a) == encode_utf8(b),
    ensures
        a == b,
{
    vstd::utf8::encode_utf8_decode_utf8(a);
    vstd::utf8::encode_utf8_decode_utf8(b);
}

/// `String::push` of the standard library: the string grows by the one character, at
/// its end.
pub assume_specification[ std::string::String::push ](s: &mut std::string::String, ch: char)
    ensures
        final(s)@ == old(s)@.push(ch),
;

/// Every character of a number in decimal is an ASCII digit, so its UTF-8 form is one
/// byte to a digit and holds no zero byte.
pub proof fn lemma_decimal_is_plain(n: nat)
    ensures
        forall|i: int| 0 <= i < decimal(n).len() ==> '0' <= #[trigger] decimal(n)[i] <= '9',
        vstd::utf8::is_ascii_chars(decimal(n)),
        !encode_utf8(decimal(n)).contains(0u8),
    decreases n,
{
    if n >= 10 {
        lemma_decimal_is_plain(n / 10);
    }
    let text = decimal(n);
    assert(forall|i: int| 0 <= i < text.len() ==> '0' <= #[trigger] text[i] <= '9');
    assert(vstd::utf8::is_ascii_chars(text));
    vstd::utf8::is_ascii_chars_encode_utf8(text);
    assert forall|j: int| 0 <= j < encode_utf8(text).len() implies encode_utf8(text)[j] != 0u8 by {
        assert(text[j] as u8 == encode_utf8(text)[j]);
    }
}

/// Gives the decimal digit for a number below ten.
fn digit_char(d: usize) -> (c: char)
    requires
        d < 10,
    ensures
        c == digit(d as nat),
{
    match d {
        0 => '0',
        1 => '1',
        2 => '2',
        3 => '3',
        4 => '4',
        5 => '5',
        6 => '6',
        7 => '7',
        8 => '8',
        _ => '9',
    }
}

/// Appends a number in decimal to a string.
pub fn push_decimal(s: &mut String, n: usize)
    ensures
        final(s)@ == old(s)@ + decimal(n as nat),
    decreases n,
{
    if n >= 10 {
        push_decimal(s, n / 10);
    }
    s.push(digit_char(n % 10));
    assert(s@ =~= old(s)@ + decimal(n as nat));
}

/// Writes a number in decimal: most significant digit first, no sign, no leading zero.
pub fn decimal_string(n: usize) -> (s: String)
    ensures
        s@ == decimal(n as nat),
{
    let mut s = String::new();
    push_decimal(&mut s, n);
    assert(s@ =~= decimal(n as nat));
    s
}

/// Gives the value of a hexadecimal digit.
fn hex_digit(b: u8) -> (r: Option<u8>)
    ensures
        r is Some <==> hex_value(b) is Some,
        r is Some ==> r->Some_0 == hex_value(b)->0,
{
    if 48 <= b && b <= 57 {
        Some(b - 48)
    } else if 97 <= b && b <= 102 {
        Some(b - 87)
    } else if 65 <= b && b <= 70 {
        Some(b - 55)
    } else {
        None
    }
}

/// Reads twelve bytes from 24 hexadecimal digits, or gives `None` for any other text.
pub fn parse_hex24(utf8: &[u8]) -> (r: Option<Vec<u8>>)
    ensures
        r is Some <==> is_hex24(utf8@),
        r is Some ==> r->Some_0@ == hex24_bytes(utf8@),
{
    if utf8.len() != 24 {
        return None;
    }
    let mut out: Vec<u8> = Vec::new();
    let mut i: usize = 0;
    while i < 12
        invariant
            0 <= i <= 12,
            utf8@.len() == 24,
            out@.len() == i,
            forall|j: int| 0 <= j < 2 * i ==> (#[trigger] hex_value(utf8@[j])) is Some,
            forall|k: int| 0 <= k < i ==> out@[k] == #[trigger] hex24_bytes(utf8@)[k],
        decreases 12 - i,
    {
        let high = hex_digit(utf8[2 * i]);
        let low = hex_digit(utf8[2 * i + 1]);
        match (high, low) {
            (Some(h), Some(l)) => {
                out.push(h * 16 + l);
            },
            _ => {
                assert(hex_value(utf8@[2 * i]) is None || hex_value(utf8@[2 * i + 1]) is None);
                return None;
            },
        }
        i += 1;
    }
    assert(out@ =~= hex24_bytes(utf8@));
    Some(out)
}

/// A run of digits spells a number that is not negative, and no less than what any of
/// its beginnings spells.
pub proof fn lemma_digits_value_grows(digits: Seq<u8>, n: int)
    requires
        all_digits(digits),
        0 <= n <= digits.len(),
    ensures
        0 <= digits_value(digits.take(n)) <= digits_value(digits),
    decreases digits.len(),
{
    if n == digits.len() {
        assert(digits.take(n) =~= digits);
        if n > 0 {
            lemma_digits_value_grows(digits.drop_last(), n - 1);
        }
    } else {
        lemma_digits_value_grows(digits.drop_last(), n);
        assert(digits.drop_last().take(n) =~= digits.take(n));
    }
}

/// Reads a signed 64-bit integer from its decimal text: an optional sign, then at
/// least one digit and nothing else. Gives `None` for any other text and for a number
/// outside the signed 64-bit range.
#[verifier::loop_isolation(false)]
pub fn parse_decimal_i64(utf8: &[u8]) -> (r: Option<i64>)
    ensures
        r == parse_i64(utf8@),
{
    let len: usize = utf8.len();
    if len == 0 {
        return None;
    }
    let negative: bool = utf8[0] == 45;
    let signed: bool = negative || utf8[0] == 43;
    let first: usize = if signed {
        1
    } else {
        0
    };
    let ghost digits = utf8@.subrange(first as int, len as int);
    assert(utf8@.subrange(0, len as int) =~= utf8@);
    if first == len {
        return None;
    }
    let mut magnitude: u128 = 0;
    let mut i: usize = first;
    while i < len
        invariant
            first <= i <= len,
            len == utf8@.len(),
            digits == utf8@.subrange(first as int, len as int),
            all_digits(digits.take(i - first)),
            magnitude == digits_value(digits.take(i - first)),
            magnitude <= 0x8000_0000_0000_0000,
        decreases len - i,
    {
        let b: u8 = utf8[i];
        if b < 48 || b > 57 {
            assert(digits[i - first] == b);
            return None;
        }
        magnitude = magnitude * 10 + (b - 48) as u128;
        proof {
            let next = digits.take(i - first + 1);
            assert(next.drop_last() =~= digits.take(i - first));
            assert(next.last() == b);
            assert(digits_value(next) == 10 * digits_value(next.drop_last()) + (next.last() - 48));
            assert(all_digits(next));
        }
        if magnitude > 0x8000_0000_0000_0000 {
            proof {
                if all_digits(digits) {
                    lemma_digits_value_grows(digits, i - first + 1);
                }
            }
            return None;
        }
        i += 1;
    }
    assert(digits.take(len - first) =~= digits);
    if negative {
        if magnitude == 0x8000_0000_0000_0000 {
            Some(i64::MIN)
        } else {
            Some(-(magnitude as i64))
        }
    } else if magnitude == 0x8000_0000_0000_0000 {
        None
    } else {
        Some(magnitude as i64)
    }
}

/// Puts a character into an ascending run at its place, behind its equals.
fn insert_char(run: &mut Vec<char>, c: char)
    ensures
        final(run)@ == insert_sorted(old(run)@, c),
{
    let mut k: usize = run.len();
    proof {
        assert(run@.take(k as int) =~= run@);
        assert(insert_sorted(run@, c) + run@.skip(k as int) =~= insert_sorted(run@, c));
    }
    while k > 0 && run[k - 1] as u32 > c as u32
        invariant
            0 <= k <= run@.len(),
            run@ == old(run)@,
            insert_sorted(run@, c) == insert_sorted(run@.take(k as int), c) + run@.skip(k as int),
        decreases k,
    {
        proof {
            let head = run@.take(k as int);
            assert(head.drop_last() =~= run@.take(k - 1));
            assert(insert_sorted(head, c) == insert_sorted(head.drop_last(), c).push(head.last()));
            assert(insert_sorted(head.drop_last(), c).push(head.last()) + run@.skip(k as int)
                =~= insert_sorted(run@.take(k - 1), c) + run@.skip(k - 1));
        }
        k -= 1;
    }
    proof {
        let head = run@.take(k as int);
        assert(insert_sorted(head, c) == head.push(c));
        assert(run@.take(0) =~= Seq::<char>::empty());
        assert(run@.skip(0) =~= run@);
    }
    run.insert(k, c);
    assert(run@ =~= old(run)@.take(k as int).push(c) + old(run)@.skip(k as int));
}

/// Gives the characters of a text in ascending order.
pub fn sorted_string(text: &str) -> (r: String)
    ensures
        r@ == sorted(text@),
{
    let n: usize = text.unicode_len();
    let mut run: Vec<char> = Vec::new();
    let mut i: usize = 0;
    while i < n
        invariant
            0 <= i <= n,
            n == text@.len(),
            run@ == sorted(text@.take(i as int)),
        decreases n - i,
    {
        let c: char = text.get_char(i);
        proof {
            let next = text@.take(i + 1);
            assert(next.drop_last() =~= text@.take(i as int));
            assert(next.last() == c);
        }
        insert_char(&mut run, c);
        i += 1;
    }
    assert(text@.take(n as int) =~= text@);
    let mut out = String::new();
    let mut j: usize = 0;
    while j < run.len()
        invariant
            0 <= j <= run@.len(),
            out@ == run@.take(j as int),
        decreases run@.len() - j,
    {
        out.push(run[j]);
        assert(run@.take(j as int).push(run@[j as int]) =~= run@.take(j + 1));
        j += 1;
    }
    assert(run@.take(run@.len() as int) =~= run@);
    out
}

/// Tells whether two strings are equal.
pub fn str_eq(a: &str, b: &str) -> (same: bool)
    ensures
        same == (a@ == b@),
{
    let x = a.as_bytes();
    let y = b.as_bytes();
    if x.len() != y.len() {
        return false;
    }
    let mut i: usize = 0;
    while i < x.len()
        invariant
            0 <= i <= x@.len(),
            x@.len() == y@.len(),
            x@ == a.spec_bytes(),
            y@ == b.spec_bytes(),
            forall|j: int| 0 <= j < i ==> x@[j] == y@[j],
        decreases x@.len() - i,
    {
        if x[i] != y[i] {
            return false;
        }
        i += 1;
    }
    proof {
        assert(x@ =~= y@);
        lemma_utf8_injective(a@, b@);
    }
    true
}

} // verus!
