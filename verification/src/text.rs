//! Numbers as text: how a window identifier or a desktop number is written,
//! in decimal and in hexadecimal, and how such text is read back.

use vstd::prelude::*;
use vstd::string::*;

verus! {

/// The character that stands for the digit `d`, for `d` below sixteen.
pub open spec fn digit_char(d: int) -> char {
    if d == 0 {
        '0'
    } else if d == 1 {
        '1'
    } else if d == 2 {
        '2'
    } else if d == 3 {
        '3'
    } else if d == 4 {
        '4'
    } else if d == 5 {
        '5'
    } else if d == 6 {
        '6'
    } else if d == 7 {
        '7'
    } else if d == 8 {
        '8'
    } else if d == 9 {
        '9'
    } else if d == 10 {
        'a'
    } else if d == 11 {
        'b'
    } else if d == 12 {
        'c'
    } else if d == 13 {
        'd'
    } else if d == 14 {
        'e'
    } else {
        'f'
    }
}

/// The digit that `c` stands for in the given base, if it stands for one.
/// Above nine, small and capital letters both count.
pub open spec fn digit_value(c: char, base: int) -> Option<int> {
    let v: int = if c == '0' {
        0
    } else if c == '1' {
        1
    } else if c == '2' {
        2
    } else if c == '3' {
        3
    } else if c == '4' {
        4
    } else if c == '5' {
        5
    } else if c == '6' {
        6
    } else if c == '7' {
        7
    } else if c == '8' {
        8
    } else if c == '9' {
        9
    } else if c == 'a' || c == 'A' {
        10
    } else if c == 'b' || c == 'B' {
        11
    } else if c == 'c' || c == 'C' {
        12
    } else if c == 'd' || c == 'D' {
        13
    } else if c == 'e' || c == 'E' {
        14
    } else if c == 'f' || c == 'F' {
        15
    } else {
        16
    };
    if v < base {
        Some(v)
    } else {
        None
    }
}

/// The digits of `n` in the given base, most significant first, without
/// leading zeros; zero is written as one digit.
pub open spec fn digits(n: nat, base: nat) -> Seq<char>
    recommends
        2 <= base <= 16,
    decreases n,
{
    if n < base || base < 2 {
        seq![digit_char(n as int)]
    } else {
        proof {
            assert(n / base < n) by (nonlinear_arith)
                requires
                    n >= base,
                    base >= 2,
            ;
        }
        digits(n / base, base).push(digit_char((n % base) as int))
    }
}

/// The number that a sequence of digits stands for, most significant first.
/// A character that is no digit counts as zero.
pub open spec fn digits_value(s: Seq<char>, base: int) -> int
    decreases s.len(),
{
    if s.len() == 0 {
        0
    } else {
        digits_value(s.drop_last(), base) * base + (match digit_value(s.last(), base) {
            Some(v) => v,
            None => 0,
        })
    }
}

/// Whether every character is a digit of the given base.
pub open spec fn all_digits(s: Seq<char>, base: int) -> bool {
    forall|i: int| 0 <= i < s.len() ==> (#[trigger] digit_value(s[i], base)) is Some
}

/// The text without a plus sign in front of it.
pub open spec fn unsigned_part(s: Seq<char>) -> Seq<char> {
    if s.len() > 0 && s[0] == '+' {
        s.skip(1)
    } else {
        s
    }
}

/// Why a text is not read as a number.
#[derive(Debug, Clone, Copy, PartialEq, Eq, Structural)]
pub enum ParseError {
    /// There is no text.
    Empty,
    /// There is no digit, or a character that is none.
    InvalidDigit,
    /// The number is too large.
    Overflow,
}

impl ParseError {
    /// What the user is told.
    pub open spec fn text(&self) -> Seq<char> {
        match *self {
            ParseError::Empty => "cannot parse integer from empty string"@,
            ParseError::InvalidDigit => "invalid digit found in string"@,
            ParseError::Overflow => "number too large to fit in target type"@,
        }
    }

    /// What the user is told.
    pub fn message(&self) -> (text: String)
        ensures
            text@ == self.text(),
    {
        match *self {
            ParseError::Empty => String::from_str("cannot parse integer from empty string"),
            ParseError::InvalidDigit => String::from_str("invalid digit found in string"),
            ParseError::Overflow => String::from_str("number too large to fit in target type"),
        }
    }
}

/// Whether some leading run of digits of `body` already stands for a number
/// that a `u32` does not hold.
#[verifier::opaque]
pub open spec fn overflows(body: Seq<char>, base: int) -> bool {
    exists|k: int|
        0 <= k <= body.len() && all_digits(#[trigger] body.take(k), base) && digits_value(
            body.take(k),
            base,
        ) > u32::MAX
}

/// The number that `s` is read as in the given base: an optional plus sign,
/// then at least one digit and nothing else, with a value that a `u32` holds.
///
/// The text is read from the left, and what is wrong first decides the
/// error: digits that stand for too large a number before any character that
/// is no digit, or such a character before the number grows too large.
pub open spec fn parse_number(s: Seq<char>, base: int) -> Result<u32, ParseError> {
    let body = unsigned_part(s);
    if s.len() == 0 {
        Err(ParseError::Empty)
    } else if body.len() == 0 {
        Err(ParseError::InvalidDigit)
    } else if overflows(body, base) {
        Err(ParseError::Overflow)
    } else if !all_digits(body, base) {
        Err(ParseError::InvalidDigit)
    } else {
        Ok(digits_value(body, base) as u32)
    }
}

/// The number of which `s` is the decimal text as `digits` writes it: no
/// sign and no leading zero.
pub open spec fn parse_key(s: Seq<char>) -> Option<u32> {
    match parse_number(s, 10) {
        Ok(n) => if digits(n as nat, 10) == s {
            Some(n)
        } else {
            None
        },
        Err(_) => None,
    }
}

/// The one-character text of a digit.
fn digit_text(d: u32) -> (text: &'static str)
    requires
        d < 16,
    ensures
        text@ == seq![digit_char(d as int)],
{
    proof {
        reveal_strlit("0");
        reveal_strlit("1");
        reveal_strlit("2");
        reveal_strlit("3");
        reveal_strlit("4");
        reveal_strlit("5");
        reveal_strlit("6");
        reveal_strlit("7");
        reveal_strlit("8");
        reveal_strlit("9");
        reveal_strlit("a");
        reveal_strlit("b");
        reveal_strlit("c");
        reveal_strlit("d");
        reveal_strlit("e");
        reveal_strlit("f");
    }
    let text = if d == 0 {
        "0"
    } else if d == 1 {
        "1"
    } else if d == 2 {
        "2"
    } else if d == 3 {
        "3"
    } else if d == 4 {
        "4"
    } else if d == 5 {
        "5"
    } else if d == 6 {
        "6"
    } else if d == 7 {
        "7"
    } else if d == 8 {
        "8"
    } else if d == 9 {
        "9"
    } else if d == 10 {
        "a"
    } else if d == 11 {
        "b"
    } else if d == 12 {
        "c"
    } else if d == 13 {
        "d"
    } else if d == 14 {
        "e"
    } else {
        "f"
    };
    assert(text@ =~= seq![digit_char(d as int)]);
    text
}

/// Appends the digits of `n` in the given base.
pub fn push_digits(out: &mut String, n: u64, base: u32)
    requires
        2 <= base <= 16,
    ensures
        final(out)@ == old(out)@ + digits(n as nat, base as nat),
    decreases n,
{
    let wide: u64 = base as u64;
    if n >= wide {
        assert(n / wide < n) by (nonlinear_arith)
            requires
                n >= wide,
                wide >= 2,
        ;
        push_digits(out, n / wide, base);
    }
    assert(n % wide < wide) by (nonlinear_arith)
        requires
            wide >= 2,
            n >= 0,
    ;
    let ghost upper = out@;
    out.append(digit_text((n % wide) as u32));
    proof {
        let last = digit_char((n % wide) as int);
        assert(out@ =~= upper.push(last));
        if n >= wide {
            assert(digits(n as nat, base as nat) == digits(
                (n as nat) / (base as nat),
                base as nat,
            ).push(last));
            assert(upper.push(last) =~= old(out)@ + digits(n as nat, base as nat));
        } else {
            assert(n % wide == n) by (nonlinear_arith)
                requires
                    0 <= n < wide,
            ;
            assert(digits(n as nat, base as nat) == seq![last]);
            assert(upper.push(last) =~= old(out)@ + digits(n as nat, base as nat));
        }
    }
}

/// `n` in decimal.
pub fn decimal_string(n: u32) -> (text: String)
    ensures
        text@ == digits(n as nat, 10),
{
    let mut text = String::new();
    push_digits(&mut text, n as u64, 10);
    assert(text@ =~= digits(n as nat, 10));
    text
}

/// `n` in hexadecimal with small letters, after the prefix `0x`.
pub fn hex_string(n: u32) -> (text: String)
    ensures
        text@ == seq!['0', 'x'] + digits(n as nat, 16),
{
    let mut text = String::from_str("0x");
    proof {
        reveal_strlit("0x");
        assert("0x"@ =~= seq!['0', 'x']);
    }
    push_digits(&mut text, n as u64, 16);
    text
}

/// So many zeros.
pub open spec fn zeros(count: nat) -> Seq<char> {
    Seq::new(count, |i: int| '0')
}

/// `text` behind as many zeros as it is shorter than `width`.
pub open spec fn padded(text: Seq<char>, width: nat) -> Seq<char> {
    zeros(
        if text.len() < width {
            (width - text.len()) as nat
        } else {
            0
        },
    ) + text
}

/// `n` in hexadecimal with small letters, after the prefix `0x`, with
/// leading zeros where it has fewer than eight digits.
pub fn padded_hex_string(n: u32) -> (text: String)
    ensures
        text@ == seq!['0', 'x'] + padded(digits(n as nat, 16), 8),
{
    let mut written = String::new();
    push_digits(&mut written, n as u64, 16);
    assert(written@ =~= digits(n as nat, 16));
    let len = written.as_str().unicode_len();
    let mut text = String::from_str("0x");
    proof {
        reveal_strlit("0x");
        reveal_strlit("0");
        assert("0x"@ =~= seq!['0', 'x']);
    }
    let mut k: usize = len;
    assert(text@ =~= seq!['0', 'x'] + zeros(0));
    while k < 8
        invariant
            len <= k,
            len < 8 ==> k <= 8,
            len >= 8 ==> k == len,
            len == written@.len(),
            written@ == digits(n as nat, 16),
            "0"@ == seq!['0'],
            text@ == seq!['0', 'x'] + zeros((k - len) as nat),
        decreases 8 - k,
    {
        text.append("0");
        k += 1;
        assert(text@ =~= seq!['0', 'x'] + zeros((k - len) as nat));
    }
    text.append(written.as_str());
    assert(text@ =~= seq!['0', 'x'] + padded(digits(n as nat, 16), 8));
    text
}

/// A decimal number that a `u32` holds has at most ten digits.
pub proof fn lemma_decimal_length(n: nat)
    requires
        n <= u32::MAX,
    ensures
        1 <= digits(n, 10).len() <= 10,
{
    reveal_with_fuel(digits, 11);
}

/// The digit that `c` stands for in the given base.
pub fn read_digit(c: char, base: u32) -> (digit: Option<u32>)
    requires
        2 <= base <= 16,
    ensures
        match digit {
            Some(v) => digit_value(c, base as int) == Some(v as int),
            None => digit_value(c, base as int) is None,
        },
{
    let v: u32 = if c == '0' {
        0
    } else if c == '1' {
        1
    } else if c == '2' {
        2
    } else if c == '3' {
        3
    } else if c == '4' {
        4
    } else if c == '5' {
        5
    } else if c == '6' {
        6
    } else if c == '7' {
        7
    } else if c == '8' {
        8
    } else if c == '9' {
        9
    } else if c == 'a' || c == 'A' {
        10
    } else if c == 'b' || c == 'B' {
        11
    } else if c == 'c' || c == 'C' {
        12
    } else if c == 'd' || c == 'D' {
        13
    } else if c == 'e' || c == 'E' {
        14
    } else if c == 'f' || c == 'F' {
        15
    } else {
        16
    };
    if v < base {
        Some(v)
    } else {
        None
    }
}

/// A longer text of digits stands for no smaller number.
pub proof fn lemma_value_grows(s: Seq<char>, k: int, base: int)
    requires
        0 <= k <= s.len(),
        base >= 1,
    ensures
        0 <= digits_value(s.take(k), base) <= digits_value(s, base),
    decreases s.len(),
{
    if s.len() == 0 {
        assert(s.take(k) =~= s);
    } else if k == s.len() {
        assert(s.take(k) =~= s);
        lemma_value_grows(s.drop_last(), 0, base);
        let v = digits_value(s.drop_last(), base);
        assert(v * base >= 0) by (nonlinear_arith)
            requires
                v >= 0,
                base >= 1,
        ;
    } else {
        lemma_value_grows(s.drop_last(), k, base);
        assert(s.drop_last().take(k) =~= s.take(k));
        let v = digits_value(s.drop_last(), base);
        assert(v * base >= v) by (nonlinear_arith)
            requires
                v >= 0,
                base >= 1,
        ;
    }
}

/// A run of digits that is cut short at a character that is no digit, or
/// that stands for a number that a `u32` holds, does not overflow.
proof fn lemma_no_overflow(body: Seq<char>, n: int, base: int)
    requires
        base >= 1,
        0 <= n <= body.len(),
        all_digits(body.take(n), base),
        digits_value(body.take(n), base) <= u32::MAX,
        n < body.len() ==> digit_value(body[n], base) is None,
    ensures
        !overflows(body, base),
{
    reveal(overflows);
    assert forall|k: int|
        0 <= k <= body.len() && all_digits(#[trigger] body.take(k), base) implies digits_value(
        body.take(k),
        base,
    ) <= u32::MAX by {
        if k > n {
            assert(body.take(k)[n] == body[n]);
            assert(digit_value(body.take(k)[n], base) is None);
        } else {
            lemma_value_grows(body.take(n), k, base);
            assert(body.take(n).take(k) =~= body.take(k));
        }
    }
}

/// Reads `s` as a number in the given base.
pub fn read_number(s: &str, base: u32) -> (result: Result<u32, ParseError>)
    requires
        2 <= base <= 16,
    ensures
        result == parse_number(s@, base as int),
{
    let len = s.unicode_len();
    if len == 0 {
        return Err(ParseError::Empty);
    }
    let start: usize = if s.get_char(0) == '+' {
        1
    } else {
        0
    };
    let ghost body = unsigned_part(s@);
    assert(body =~= s@.skip(start as int));
    if start == len {
        return Err(ParseError::InvalidDigit);
    }
    let mut value: u32 = 0;
    let mut i: usize = start;
    assert(body.take(0) =~= Seq::<char>::empty());
    while i < len
        invariant
            2 <= base <= 16,
            start <= i <= len,
            len == s@.len(),
            len > 0,
            body == s@.skip(start as int),
            body == unsigned_part(s@),
            all_digits(body.take(i - start), base as int),
            value == digits_value(body.take(i - start), base as int),
        decreases len - i,
    {
        let c = s.get_char(i);
        let ghost shorter = body.take(i - start);
        let ghost longer = body.take(i - start + 1);
        proof {
            assert(longer.drop_last() =~= shorter);
            assert(longer.last() == c);
            assert(body[i - start] == c);
        }
        match read_digit(c, base) {
            None => {
                proof {
                    lemma_no_overflow(body, i - start, base as int);
                    assert(digit_value(body[i - start], base as int) is None);
                    assert(!all_digits(body, base as int));
                }
                return Err(ParseError::InvalidDigit);
            },
            Some(d) => {
                proof {
                    assert forall|j: int| 0 <= j < longer.len() implies (#[trigger] digit_value(
                        longer[j],
                        base as int,
                    )) is Some by {
                        if j < shorter.len() {
                            assert(shorter[j] == longer[j]);
                        }
                    }
                }
                assert(value * base <= 0xffff_ffff * 16) by (nonlinear_arith)
                    requires
                        value <= 0xffff_ffff,
                        base <= 16,
                ;
                let next: u64 = value as u64 * (base as u64) + d as u64;
                if next > u32::MAX as u64 {
                    proof {
                        reveal(overflows);
                        assert(all_digits(body.take(i - start + 1), base as int));
                    }
                    assert(overflows(body, base as int));
                    return Err(ParseError::Overflow);
                }
                value = next as u32;
            },
        }
        i += 1;
    }
    proof {
        assert(body.take(len - start) =~= body);
        lemma_no_overflow(body, len - start, base as int);
    }
    Ok(value)
}

/// Writing a number and reading the digits back gives the number.
pub proof fn lemma_digits_read_back(n: nat, base: nat)
    requires
        2 <= base <= 16,
    ensures
        digits(n, base).len() >= 1,
        all_digits(digits(n, base), base as int),
        digits_value(digits(n, base), base as int) == n,
        digits(n, base)[0] != '+',
    decreases n,
{
    let text = digits(n, base);
    if n < base {
        assert(text =~= seq![digit_char(n as int)]);
        assert(text.drop_last() =~= Seq::<char>::empty());
        assert(digits_value(text.drop_last(), base as int) == 0);
        assert(digit_value(text.last(), base as int) == Some(n as int));
    } else {
        assert(n / base < n) by (nonlinear_arith)
            requires
                n >= base,
                base >= 2,
        ;
        assert(0 <= n % base < base) by (nonlinear_arith)
            requires
                base >= 2,
        ;
        assert(n == (n / base) * base + n % base) by (nonlinear_arith)
            requires
                base >= 2,
        ;
        lemma_digits_read_back(n / base, base);
        let upper = digits(n / base, base);
        let last = digit_char((n % base) as int);
        assert(text == upper.push(last));
        assert(text.drop_last() =~= upper);
        assert(text.last() == last);
        assert(digit_value(last, base as int) == Some((n % base) as int));
        assert(text[0] == upper[0]);
        assert forall|j: int| 0 <= j < text.len() implies (#[trigger] digit_value(
            text[j],
            base as int,
        )) is Some by {
            if j < upper.len() {
                assert(text[j] == upper[j]);
            }
        }
    }
}

/// Reading the decimal text of a number gives the number.
pub proof fn lemma_key_round_trip(n: u32)
    ensures
        parse_key(digits(n as nat, 10)) == Some(n),
{
    lemma_digits_read_back(n as nat, 10);
    let text = digits(n as nat, 10);
    assert(unsigned_part(text) == text);
    assert(text.take(text.len() as int) =~= text);
    lemma_no_overflow(text, text.len() as int, 10);
}

/// The number of which `s` is the decimal text, without sign or leading
/// zero.
pub fn read_key(s: &str) -> (key: Option<u32>)
    ensures
        key == parse_key(s@),
        key matches Some(n) ==> s@ == digits(n as nat, 10),
{
    match read_number(s, 10) {
        Ok(n) => {
            let written = decimal_string(n);
            let given = s.to_owned();
            if written == given {
                Some(n)
            } else {
                None
            }
        },
        Err(_) => None,
    }
}

} // verus!
