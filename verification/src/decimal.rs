use vstd::prelude::*;

verus! {

/// The character of a decimal digit `d` (0 to 9).
pub open spec fn digit_char(d: int) -> char {
    (48 + d) as char
}

/// The decimal notation of `n`, most significant digit first, without leading zeros.
pub open spec fn decimal_digits(n: nat) -> Seq<char>
    decreases n,
{
    if n < 10 {
        seq![digit_char(n as int)]
    } else {
        decimal_digits(n / 10).push(digit_char((n % 10) as int))
    }
}

/// `count` copies of the character '0'.
pub open spec fn zeros(count: nat) -> Seq<char> {
    Seq::new(count, |i: int| '0')
}

/// The decimal notation of `n`, left-padded with '0' up to `width` characters
/// (the text of `format!("{:0>width$}", n)`).
pub open spec fn zero_padded(n: nat, width: nat) -> Seq<char> {
    let d = decimal_digits(n);
    if d.len() >= width {
        d
    } else {
        zeros((width - d.len()) as nat) + d
    }
}

/// The number that a text of decimal digit characters denotes.
pub open spec fn digits_value(s: Seq<char>) -> int
    decreases s.len(),
{
    if s.len() == 0 {
        0
    } else {
        digits_value(s.drop_last()) * 10 + (s.last() as int - 48)
    }
}

/// Appends the decimal notation of `n` to `out`.
fn push_decimal(n: u64, out: &mut Vec<char>)
    ensures
        final(out)@ == old(out)@ + decimal_digits(n as nat),
    decreases n,
{
    if n >= 10 {
        push_decimal(n / 10, out);
    }
    let d = (n % 10) as u8;
    let c = (48u8 + d) as char;
    out.push(c);
    proof {
        if n < 10 {
            assert(decimal_digits(n as nat) =~= seq![digit_char(n as int)]);
        }
    }
    assert(out@ =~= old(out)@ + decimal_digits(n as nat));
}

/// The decimal notation of `value`, left-padded with '0' to at least `width`
/// characters, as the score and frame-rate counters display it.
pub fn padded_decimal(value: u64, width: usize) -> (text: Vec<char>)
    ensures
        text@ == zero_padded(value as nat, width as nat),
        text@.len() >= width,
{
    let mut digits: Vec<char> = Vec::new();
    push_decimal(value, &mut digits);
    assert(digits@ =~= decimal_digits(value as nat));
    let mut text: Vec<char> = Vec::new();
    let len = digits.len();
    if len < width {
        let pad = width - len;
        for i in 0..pad
            invariant
                text@ =~= zeros(i as nat),
        {
            text.push('0');
            assert(text@ =~= zeros((i + 1) as nat));
        }
    }
    text.append(&mut digits);
    assert(text@ =~= zero_padded(value as nat, width as nat));
    text
}

proof fn lemma_digit_char_value(d: int)
    requires
        0 <= d < 10,
    ensures
        digit_char(d) as int == 48 + d,
{
}

proof fn lemma_decimal_value(n: nat)
    ensures
        digits_value(decimal_digits(n)) == n,
    decreases n,
{
    if n < 10 {
        let d = decimal_digits(n);
        assert(d.drop_last() =~= Seq::<char>::empty());
        lemma_digit_char_value(n as int);
        assert(digits_value(d) == digits_value(d.drop_last()) * 10 + (d.last() as int - 48));
    } else {
        lemma_decimal_value(n / 10);
        let d = decimal_digits(n);
        assert(d.drop_last() =~= decimal_digits(n / 10));
        lemma_digit_char_value((n % 10) as int);
        assert(d.last() == digit_char((n % 10) as int));
        assert(digits_value(d) == digits_value(d.drop_last()) * 10 + (d.last() as int - 48));
        assert(digits_value(d) == (n / 10) * 10 + n % 10);
    }
}

proof fn lemma_zeros_value(k: nat)
    ensures
        digits_value(zeros(k)) == 0,
    decreases k,
{
    if k > 0 {
        assert(zeros(k).drop_last() =~= zeros((k - 1) as nat));
        lemma_zeros_value((k - 1) as nat);
    }
}

proof fn lemma_leading_zeros_value(k: nat, s: Seq<char>)
    ensures
        digits_value(zeros(k) + s) == digits_value(s),
    decreases s.len(),
{
    if s.len() == 0 {
        assert(zeros(k) + s =~= zeros(k));
        lemma_zeros_value(k);
    } else {
        assert((zeros(k) + s).drop_last() =~= zeros(k) + s.drop_last());
        lemma_leading_zeros_value(k, s.drop_last());
    }
}

/// Reading the displayed digits back gives the value that was displayed:
/// the padding zeros never change the number.
pub proof fn lemma_padded_decimal_value(n: nat, width: nat)
    ensures
        digits_value(zero_padded(n, width)) == n,
{
    lemma_decimal_value(n);
    let d = decimal_digits(n);
    if d.len() < width {
        lemma_leading_zeros_value((width - d.len()) as nat, d);
    }
}

proof fn lemma_decimal_digits_are_digits(n: nat)
    ensures
        forall|i: int| 0 <= i < decimal_digits(n).len() ==> 48 <= (#[trigger] decimal_digits(n)[i]) as int <= 57,
    decreases n,
{
    if n < 10 {
        lemma_digit_char_value(n as int);
    } else {
        lemma_decimal_digits_are_digits(n / 10);
        lemma_digit_char_value((n % 10) as int);
        let d = decimal_digits(n);
        assert forall|i: int| 0 <= i < d.len() implies 48 <= (#[trigger] d[i]) as int <= 57 by {
            if i < d.len() - 1 {
                assert(d[i] == decimal_digits(n / 10)[i]);
            }
        }
    }
}

/// The counters show only digit characters '0' to '9', so every character
/// names one of the digit sprites.
pub proof fn lemma_padded_decimal_digits(n: nat, width: nat)
    ensures
        forall|i: int| 0 <= i < zero_padded(n, width).len() ==> 48 <= (#[trigger] zero_padded(n, width)[i]) as int <= 57,
{
    lemma_decimal_digits_are_digits(n);
    let d = decimal_digits(n);
    let t = zero_padded(n, width);
    if d.len() < width {
        let z = zeros((width - d.len()) as nat);
        assert forall|i: int| 0 <= i < t.len() implies 48 <= (#[trigger] t[i]) as int <= 57 by {
            if i < z.len() {
                assert(t[i] == '0');
            } else {
                assert(t[i] == d[i - z.len()]);
            }
        }
    }
}

/// `10` to the power `k`.
pub open spec fn pow10(k: nat) -> nat
    decreases k,
{
    if k == 0 {
        1
    } else {
        10 * pow10((k - 1) as nat)
    }
}

proof fn lemma_decimal_len_bound(n: nat, k: nat)
    requires
        k >= 1,
        n < pow10(k),
    ensures
        decimal_digits(n).len() <= k,
    decreases k,
{
    if n >= 10 {
        assert(k >= 2) by {
            if k == 1 {
                assert(pow10(1) == 10 * pow10(0));
            }
        }
        assert(pow10(k) == 10 * pow10((k - 1) as nat));
        lemma_decimal_len_bound(n / 10, (k - 1) as nat);
    }
}

/// A value with at most `width` digits is displayed in exactly `width`
/// characters.
pub proof fn lemma_padded_decimal_width(n: nat, width: nat)
    requires
        width >= 1,
        n < pow10(width),
    ensures
        zero_padded(n, width).len() == width,
{
    lemma_decimal_len_bound(n, width);
}


/// Whether byte `b` is an ASCII decimal digit.
pub open spec fn is_ascii_digit(b: u8) -> bool {
    48 <= b <= 57
}

/// The number that a text of ASCII decimal digits denotes.
pub open spec fn ascii_digits_value(s: Seq<u8>) -> int
    decreases s.len(),
{
    if s.len() == 0 {
        0
    } else {
        ascii_digits_value(s.drop_last()) * 10 + (s.last() - 48)
    }
}

/// The digits of an unsigned number's text: one leading '+' is dropped.
pub open spec fn unsigned_digits(s: Seq<u8>) -> Seq<u8> {
    if s.len() > 0 && s[0] == 43 {
        s.drop_first()
    } else {
        s
    }
}

/// What `u32`'s `FromStr` gives for the text `s`: an optional '+', then one
/// or more ASCII digits whose value fits in 32 bits; anything else is refused.
pub open spec fn spec_parse_u32(s: Seq<u8>) -> Option<u32> {
    let d = unsigned_digits(s);
    if d.len() > 0 && (forall|i: int| 0 <= i < d.len() ==> is_ascii_digit(#[trigger] d[i]))
        && ascii_digits_value(d) <= u32::MAX {
        Some(ascii_digits_value(d) as u32)
    } else {
        None
    }
}

/// One more than the largest `u32`: values at or above it are kept at it.
const PARSE_CAP: u64 = 0x1_0000_0000;

/// Reads `text` as a `u32`, as `str::parse::<u32>` does.
pub fn parse_u32(text: &[u8]) -> (value: Option<u32>)
    ensures
        value == spec_parse_u32(text@),
{
    let n = text.len();
    let mut start: usize = 0;
    if n > 0 && text[0] == 43u8 {
        start = 1;
    }
    let ghost d = unsigned_digits(text@);
    assert(d =~= text@.subrange(start as int, n as int));
    if start == n {
        return None;
    }
    let mut acc: u64 = 0;
    let mut i: usize = start;
    while i < n
        invariant
            start <= i <= n,
            n == text@.len(),
            d =~= text@.subrange(start as int, n as int),
            d == unsigned_digits(text@),
            forall|j: int| 0 <= j < i - start ==> is_ascii_digit(#[trigger] d[j]),
            acc as int == (if ascii_digits_value(d.take(i - start)) < PARSE_CAP as int {
                ascii_digits_value(d.take(i - start))
            } else {
                PARSE_CAP as int
            }),
        decreases n - i,
    {
        let b = text[i];
        if b < 48u8 || b > 57u8 {
            assert(d[i - start] == b);
            assert(!is_ascii_digit(d[i - start]));
            return None;
        }
        let ghost prev = ascii_digits_value(d.take(i - start));
        assert(d.take(i - start + 1).drop_last() =~= d.take(i - start));
        assert(d.take(i - start + 1).last() == b);
        assert(ascii_digits_value(d.take(i - start + 1)) == prev * 10 + (b - 48));
        proof {
            if prev >= PARSE_CAP as int {
                assert(prev * 10 + (b - 48) >= PARSE_CAP as int) by (nonlinear_arith)
                    requires
                        prev >= PARSE_CAP as int,
                        b >= 48,
                ;
            }
        }
        let next = acc * 10 + (b - 48) as u64;
        acc = if next < PARSE_CAP {
            next
        } else {
            PARSE_CAP
        };
        i = i + 1;
    }
    assert(d.take(n - start) =~= d);
    if acc < PARSE_CAP {
        Some(acc as u32)
    } else {
        None
    }
}

/// The decimal notation of `n` as ASCII bytes, most significant digit
/// first, without leading zeros (the text of `format!("{}", n)`).
pub open spec fn decimal_bytes(n: nat) -> Seq<u8>
    decreases n,
{
    if n < 10 {
        seq![(48 + n) as u8]
    } else {
        decimal_bytes(n / 10).push((48 + n % 10) as u8)
    }
}

/// Appends the decimal notation of `n` to `out` as ASCII bytes.
fn push_decimal_bytes(n: u32, out: &mut Vec<u8>)
    ensures
        final(out)@ == old(out)@ + decimal_bytes(n as nat),
    decreases n,
{
    if n >= 10 {
        push_decimal_bytes(n / 10, out);
    }
    let d = (n % 10) as u8;
    out.push(48u8 + d);
    proof {
        if n < 10 {
            assert(decimal_bytes(n as nat) =~= seq![(48 + n) as u8]);
        }
    }
    assert(out@ =~= old(out)@ + decimal_bytes(n as nat));
}

/// The decimal text of `value`, as it is saved.
pub fn decimal_text(value: u32) -> (text: Vec<u8>)
    ensures
        text@ == decimal_bytes(value as nat),
{
    let mut text: Vec<u8> = Vec::new();
    push_decimal_bytes(value, &mut text);
    assert(text@ =~= decimal_bytes(value as nat));
    text
}

proof fn lemma_decimal_bytes(n: nat)
    ensures
        decimal_bytes(n).len() >= 1,
        forall|i: int| 0 <= i < decimal_bytes(n).len() ==> is_ascii_digit(#[trigger] decimal_bytes(n)[i]),
        ascii_digits_value(decimal_bytes(n)) == n,
    decreases n,
{
    let d = decimal_bytes(n);
    if n < 10 {
        assert(d.drop_last() =~= Seq::<u8>::empty());
        assert(d.last() as int == 48 + n);
        assert(ascii_digits_value(d) == ascii_digits_value(d.drop_last()) * 10 + (d.last() - 48));
    } else {
        lemma_decimal_bytes(n / 10);
        assert(d.last() as int == 48 + n % 10);
        assert(ascii_digits_value(d) == ascii_digits_value(d.drop_last()) * 10 + (d.last() - 48));
        assert(d.drop_last() =~= decimal_bytes(n / 10));
        assert forall|i: int| 0 <= i < d.len() implies is_ascii_digit(#[trigger] d[i]) by {
            if i < d.len() - 1 {
                assert(d[i] == decimal_bytes(n / 10)[i]);
            }
        }
        assert(ascii_digits_value(d) == (n / 10) * 10 + n % 10);
    }
}

/// A saved number reads back as itself: the decimal text of `value` is
/// parsed as `value`.
pub proof fn lemma_decimal_text_round_trip(value: u32)
    ensures
        spec_parse_u32(decimal_bytes(value as nat)) == Some(value),
{
    lemma_decimal_bytes(value as nat);
    let d = decimal_bytes(value as nat);
    assert(is_ascii_digit(d[0]));
    assert(unsigned_digits(d) == d);
}

/// Larger numbers have at least as many digits.
pub proof fn lemma_decimal_bytes_len_monotonic(a: nat, b: nat)
    requires
        a <= b,
    ensures
        decimal_bytes(a).len() <= decimal_bytes(b).len(),
    decreases b,
{
    if b >= 10 && a >= 10 {
        lemma_decimal_bytes_len_monotonic(a / 10, b / 10);
    } else if b >= 10 {
        lemma_decimal_bytes(b / 10);
    }
}

} // verus!
