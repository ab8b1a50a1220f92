//! Text helpers: building strings, decimal numerals, and the byte order of
//! two texts.

use vstd::prelude::*;
use vstd::string::*;
use vstd::utf8::*;

verus! {

/// The outcome of comparing two things that are ordered.
#[derive(Clone, Copy, Debug, PartialEq, Eq, Structural)]
pub enum Comparison {
    Less,
    Equal,
    Greater,
}

/// `String::push`: the character is added at the end and nothing else
/// changes.
#[verifier::external_body]
pub(crate) fn push_char(s: &mut String, c: char)
    ensures
        final(s)@ == old(s)@.push(c),
{
    s.push(c)
}

/// `n` copies of one character.
pub open spec fn repeated(c: char, n: nat) -> Seq<char> {
    Seq::new(n, |i: int| c)
}

/// Appends `n` spaces to `out`.
pub fn push_spaces(out: &mut String, n: usize)
    ensures
        final(out)@ == old(out)@ + repeated(' ', n as nat),
{
    let mut i: usize = 0;
    while i < n
        invariant
            i <= n,
            out@ == old(out)@ + repeated(' ', i as nat),
        decreases n - i,
    {
        push_char(out, ' ');
        i = i + 1;
    }
}

/// The character that writes the digit `d`.
pub open spec fn digit_char(d: int) -> char {
    if d == 0 {
        '0'
    } else if d == 1 {
        '1'
    } else if d == 2 {
        '2'
    } else if d == 3 {
        '3'
    } else if d == 4 {
        '4'
    } else if d == 5 {
        '5'
    } else if d == 6 {
        '6'
    } else if d == 7 {
        '7'
    } else if d == 8 {
        '8'
    } else {
        '9'
    }
}

/// Whether `c` is one of the ten decimal digits.
pub open spec fn is_digit(c: char) -> bool {
    '0' <= c && c <= '9'
}

/// The value of the digit `c`.
pub open spec fn digit_value(c: char) -> int {
    c as int - '0' as int
}

/// The decimal numeral of a natural number, without leading zeros.
pub open spec fn nat_text(n: nat) -> Seq<char>
    decreases n,
{
    if n < 10 {
        seq![digit_char(n as int)]
    } else {
        nat_text(n / 10).push(digit_char((n % 10) as int))
    }
}

/// The decimal numeral of an integer: a minus sign for a negative one, then
/// the numeral of its magnitude.
pub open spec fn decimal_text(i: int) -> Seq<char> {
    if i < 0 {
        seq!['-'] + nat_text((-i) as nat)
    } else {
        nat_text(i as nat)
    }
}

/// Whether `s` is one or more decimal digits.
pub open spec fn is_digits(s: Seq<char>) -> bool {
    s.len() > 0 && forall|i: int| 0 <= i < s.len() ==> is_digit(#[trigger] s[i])
}

/// The number that a string of digits writes.
pub open spec fn digits_value(s: Seq<char>) -> nat
    decreases s.len(),
{
    if s.len() == 0 {
        0
    } else {
        (digits_value(s.drop_last()) * 10 + digit_value(s.last())) as nat
    }
}

/// The integer that `s` writes in decimal, if it writes one: an optional
/// sign, then one or more digits. Leading zeros are accepted.
pub open spec fn signed_value(s: Seq<char>) -> Option<int> {
    if s.len() > 0 && s[0] == '-' {
        if is_digits(s.skip(1)) {
            Some(-(digits_value(s.skip(1)) as int))
        } else {
            None
        }
    } else if s.len() > 0 && s[0] == '+' {
        if is_digits(s.skip(1)) {
            Some(digits_value(s.skip(1)) as int)
        } else {
            None
        }
    } else if is_digits(s) {
        Some(digits_value(s) as int)
    } else {
        None
    }
}

/// The integer that `s` writes, if it writes one that a 128-bit signed
/// integer holds.
pub open spec fn integer_of(s: Seq<char>) -> Option<int> {
    match signed_value(s) {
        Some(v) => if i128::MIN <= v <= i128::MAX {
            Some(v)
        } else {
            None
        },
        None => None,
    }
}

/// The character that writes the digit `d`.
pub fn digit(d: u8) -> (c: char)
    requires
        d < 10,
    ensures
        c == digit_char(d as int),
{
    match d {
        0 => '0',
        1 => '1',
        2 => '2',
        3 => '3',
        4 => '4',
        5 => '5',
        6 => '6',
        7 => '7',
        8 => '8',
        _ => '9',
    }
}

/// Appends the decimal numeral of `n` to `out`.
pub fn push_nat(out: &mut String, n: u128)
    ensures
        final(out)@ == old(out)@ + nat_text(n as nat),
    decreases n,
{
    if n >= 10 {
        push_nat(out, n / 10);
    }
    let d: u8 = (n % 10) as u8;
    push_char(out, digit(d));
}

/// Appends the decimal numeral of `i` to `out`.
pub fn push_integer(out: &mut String, i: i128)
    ensures
        final(out)@ == old(out)@ + decimal_text(i as int),
{
    if i < 0 {
        push_char(out, '-');
        let magnitude: u128 = ((-(i + 1)) as u128) + 1;
        push_nat(out, magnitude);
    } else {
        push_nat(out, i as u128);
    }
}

/// The decimal numeral of `i`.
pub fn integer_text(i: i128) -> (s: String)
    ensures
        s@ == decimal_text(i as int),
{
    let mut s = String::new();
    push_integer(&mut s, i);
    s
}

/// Every numeral that `nat_text` writes is made of digits and reads back as
/// the number it was written for.
pub proof fn lemma_nat_text_reads_back(n: nat)
    ensures
        is_digits(nat_text(n)),
        digits_value(nat_text(n)) == n,
        nat_text(n)[0] != '-',
        nat_text(n)[0] != '+',
    decreases n,
{
    if n < 10 {
        let s = nat_text(n);
        assert(digits_value(s.drop_last()) == 0);
    } else {
        lemma_nat_text_reads_back(n / 10);
        let s = nat_text(n);
        assert(s.drop_last() =~= nat_text(n / 10));
    }
}

/// Reading the numeral of an integer gives the integer back.
pub proof fn lemma_decimal_text_reads_back(i: int)
    ensures
        signed_value(decimal_text(i)) == Some(i),
{
    if i < 0 {
        let m = (-i) as nat;
        lemma_nat_text_reads_back(m);
        let s = decimal_text(i);
        assert(s.skip(1) =~= nat_text(m));
    } else {
        lemma_nat_text_reads_back(i as nat);
    }
}

/// The largest magnitude that a 128-bit signed integer can have.
pub const MAGNITUDE_LIMIT: u128 = 170141183460469231731687303715884105728u128;

/// A string of digits is worth at least as much as each of its prefixes.
pub proof fn lemma_digits_value_grows(t: Seq<char>, k: int)
    requires
        0 <= k <= t.len(),
        forall|i: int| 0 <= i < t.len() ==> is_digit(#[trigger] t[i]),
    ensures
        digits_value(t.subrange(0, k)) <= digits_value(t),
    decreases t.len() - k,
{
    if k == t.len() {
        assert(t.subrange(0, k) =~= t);
    } else {
        assert(t.drop_last().subrange(0, k) =~= t.subrange(0, k));
        lemma_digits_value_grows(t.drop_last(), k);
    }
}

/// The byte of an ASCII character is its code.
pub proof fn lemma_ascii_byte(c: char)
    requires
        c <= '\u{7f}',
    ensures
        (c as u8) as int == c as int,
{
    let u = c as u32;
    assert(u as u8 == u) by (bit_vector)
        requires
            u < 128,
    ;
}

/// Reads a decimal integer: an optional sign, then one or more digits.
/// Gives `None` for any other text and for a number out of range.
pub fn parse_integer(s: &str) -> (r: Option<i128>)
    ensures
        match r {
            Some(v) => integer_of(s@) == Some(v as int),
            None => integer_of(s@) is None,
        },
{
    broadcast use is_ascii_spec_bytes;

    if !s.is_ascii() {
        proof {
            let k = choose|k: int| 0 <= k < s@.len() && !('\0' <= (#[trigger] s@[k]) <= '\u{7f}');
            if k >= 1 {
                assert(s@.skip(1)[k - 1] == s@[k]);
            }
        }
        return None;
    }
    let bytes = s.as_bytes();
    let n: usize = bytes.len();
    if n == 0 {
        return None;
    }
    let first: u8 = bytes[0];
    proof {
        lemma_ascii_byte(s@[0]);
    }
    let negative: bool = first == 45;
    let start: usize = if first == 45 || first == 43 {
        1
    } else {
        0
    };
    let ghost body = s@.skip(start as int);
    assert(signed_value(s@) == if is_digits(body) {
        Some(
            if negative {
                -(digits_value(body) as int)
            } else {
                digits_value(body) as int
            },
        )
    } else {
        None::<int>
    }) by {
        assert(s@.skip(0) =~= s@);
    }
    if start == n {
        return None;
    }
    let mut acc: u128 = 0;
    let mut i: usize = start;
    while i < n
        invariant
            start <= i <= n,
            n == s@.len(),
            n == bytes@.len(),
            body == s@.skip(start as int),
            !is_digits(body) ==> signed_value(s@) is None,
            is_digits(body) ==> signed_value(s@) == Some(
                if negative {
                    -(digits_value(body) as int)
                } else {
                    digits_value(body) as int
                },
            ),
            forall|j: int| 0 <= j < n ==> bytes@[j] == (#[trigger] s@[j]) as u8,
            forall|j: int| 0 <= j < n ==> (#[trigger] s@[j]) <= '\u{7f}',
            forall|j: int| 0 <= j < i - start ==> is_digit(#[trigger] body[j]),
            acc == digits_value(body.subrange(0, i - start)),
            acc <= MAGNITUDE_LIMIT,
        decreases n - i,
    {
        let b: u8 = bytes[i];
        proof {
            lemma_ascii_byte(s@[i as int]);
        }
        if b < 48 || b > 57 {
            assert(!is_digit(body[i - start]));
            return None;
        }
        let d: u128 = (b - 48) as u128;
        proof {
            let next = body.subrange(0, i - start + 1);
            assert(next.drop_last() =~= body.subrange(0, i - start));
        }
        if acc > (MAGNITUDE_LIMIT - d) / 10 {
            proof {
                if is_digits(body) {
                    lemma_digits_value_grows(body, i - start + 1);
                }
            }
            return None;
        }
        acc = acc * 10 + d;
        i = i + 1;
    }
    assert(body.subrange(0, n - start) =~= body);
    if negative {
        if acc == MAGNITUDE_LIMIT {
            Some(i128::MIN)
        } else {
            Some(-(acc as i128))
        }
    } else if acc == MAGNITUDE_LIMIT {
        None
    } else {
        Some(acc as i128)
    }
}

/// The order of two byte strings: byte by byte from the front, a proper
/// prefix before what it is a prefix of.
pub open spec fn byte_order(a: Seq<u8>, b: Seq<u8>) -> Comparison
    decreases a.len(),
{
    if a.len() == 0 {
        if b.len() == 0 {
            Comparison::Equal
        } else {
            Comparison::Less
        }
    } else if b.len() == 0 {
        Comparison::Greater
    } else if a[0] < b[0] {
        Comparison::Less
    } else if a[0] > b[0] {
        Comparison::Greater
    } else {
        byte_order(a.skip(1), b.skip(1))
    }
}

/// Two byte strings are in the relation `Equal` exactly when they are the
/// same string.
pub proof fn lemma_byte_order_equal(a: Seq<u8>, b: Seq<u8>)
    ensures
        byte_order(a, b) == Comparison::Equal <==> a == b,
    decreases a.len(),
{
    if a.len() > 0 && b.len() > 0 && a[0] == b[0] {
        lemma_byte_order_equal(a.skip(1), b.skip(1));
        if a.skip(1) == b.skip(1) {
            assert(a =~= seq![a[0]] + a.skip(1));
            assert(b =~= seq![b[0]] + b.skip(1));
        }
    } else if a.len() == 0 && b.len() == 0 {
        assert(a =~= b);
    }
}

/// Compares two byte strings byte by byte.
pub fn compare_bytes(a: &[u8], b: &[u8]) -> (r: Comparison)
    ensures
        r == byte_order(a@, b@),
{
    let mut i: usize = 0;
    assert(a@.skip(0) =~= a@);
    assert(b@.skip(0) =~= b@);
    while i < a.len() && i < b.len()
        invariant
            i <= a@.len(),
            i <= b@.len(),
            byte_order(a@, b@) == byte_order(a@.skip(i as int), b@.skip(i as int)),
        decreases a@.len() - i,
    {
        if a[i] < b[i] {
            return Comparison::Less;
        }
        if a[i] > b[i] {
            return Comparison::Greater;
        }
        assert(a@.skip(i as int).skip(1) =~= a@.skip(i + 1));
        assert(b@.skip(i as int).skip(1) =~= b@.skip(i + 1));
        i = i + 1;
    }
    if i < b.len() {
        Comparison::Less
    } else if i < a.len() {
        Comparison::Greater
    } else {
        Comparison::Equal
    }
}

/// The order of two texts: that of their UTF-8 bytes.
pub open spec fn text_order(a: Seq<char>, b: Seq<char>) -> Comparison {
    byte_order(encode_utf8(a), encode_utf8(b))
}

/// Two texts are in the relation `Equal` exactly when they are the same
/// text.
pub proof fn lemma_text_order_equal(a: Seq<char>, b: Seq<char>)
    ensures
        text_order(a, b) == Comparison::Equal <==> a == b,
{
    lemma_byte_order_equal(encode_utf8(a), encode_utf8(b));
    encode_utf8_decode_utf8(a);
    encode_utf8_decode_utf8(b);
}

/// Compares two texts by their bytes.
pub fn compare_text(a: &str, b: &str) -> (r: Comparison)
    ensures
        r == text_order(a@, b@),
{
    compare_bytes(a.as_bytes(), b.as_bytes())
}

/// Whether two texts are the same.
pub fn same_text(a: &str, b: &str) -> (r: bool)
    ensures
        r == (a@ == b@),
{
    proof {
        lemma_text_order_equal(a@, b@);
    }
    match compare_text(a, b) {
        Comparison::Equal => true,
        _ => false,
    }
}

/// `std::str::from_utf8`: the bytes are accepted exactly when they are
/// well-formed UTF-8, and the text that comes back is made of those bytes.
#[verifier::external_body]
pub(crate) fn text_of_bytes(bytes: &[u8]) -> (r: Option<&str>)
    ensures
        r is Some <==> valid_utf8(bytes@),
        r matches Some(s) ==> s.spec_bytes() == bytes@,
{
    match std::str::from_utf8(bytes) {
        Ok(s) => Some(s),
        Err(_) => None,
    }
}

/// The width of a text: the number of bytes of its UTF-8 form.
pub open spec fn byte_width(s: Seq<char>) -> nat {
    encode_utf8(s).len()
}

/// The width of a text in bytes.
pub fn text_width(s: &str) -> (r: usize)
    ensures
        r == byte_width(s@),
{
    s.as_bytes().len()
}

/// The characters of a text, one by one.
pub fn chars_of(s: &str) -> (r: Vec<char>)
    ensures
        r@ == s@,
{
    let mut out: Vec<char> = Vec::new();
    for c in it: s.chars()
        invariant
            out@ == it.seq().subrange(0, it.index() as int),
            it.seq() == s@,
    {
        out.push(c);
    }
    out
}

} // verus!
