//! Decimal text: reading a signed 32-bit integer from text and writing an
//! integer as text, plain or zero-padded.

use vstd::prelude::*;

verus! {

/// `c` is one of the ASCII digits `0` to `9`.
pub open spec fn is_digit(c: char) -> bool {
    '0' <= c && c <= '9'
}

/// The number that the ASCII digit `c` stands for.
pub open spec fn digit_value(c: char) -> int {
    c as int - '0' as int
}

/// The ASCII digit that stands for `d`, for `0 <= d <= 9`.
pub open spec fn digit_char(d: int) -> char {
    if d == 0 {
        '0'
    } else if d == 1 {
        '1'
    } else if d == 2 {
        '2'
    } else if d == 3 {
        '3'
    } else if d == 4 {
        '4'
    } else if d == 5 {
        '5'
    } else if d == 6 {
        '6'
    } else if d == 7 {
        '7'
    } else if d == 8 {
        '8'
    } else {
        '9'
    }
}

/// Every character of `s` is an ASCII digit.
pub open spec fn all_digits(s: Seq<char>) -> bool {
    forall|i: int| 0 <= i < s.len() ==> is_digit(#[trigger] s[i])
}

/// The number written by the digits `s`, most significant digit first.
pub open spec fn digits_value(s: Seq<char>) -> nat
    decreases s.len(),
{
    if s.len() == 0 {
        0
    } else {
        (digits_value(s.drop_last()) * 10 + digit_value(s.last())) as nat
    }
}

/// The digits of `n` without leading zeros; `0` is written `0`.
pub open spec fn digits_of(n: nat) -> Seq<char>
    decreases n,
{
    if n < 10 {
        seq![digit_char(n as int)]
    } else {
        digits_of(n / 10).push(digit_char((n % 10) as int))
    }
}

/// The size of `n`, ignoring its sign.
pub open spec fn magnitude(n: int) -> nat {
    if n < 0 {
        (-n) as nat
    } else {
        n as nat
    }
}

/// `n` in decimal, with a leading `-` when it is negative.
pub open spec fn decimal(n: int) -> Seq<char> {
    if n < 0 {
        seq!['-'] + digits_of(magnitude(n))
    } else {
        digits_of(magnitude(n))
    }
}

/// `count` zeros.
pub open spec fn zeros(count: nat) -> Seq<char> {
    Seq::new(count, |i: int| '0')
}

/// `n` in decimal, filled with zeros after the sign up to `width` characters
/// in all. A number that needs more than `width` characters is not cut.
pub open spec fn zero_padded(n: int, width: nat) -> Seq<char> {
    let sign = if n < 0 {
        seq!['-']
    } else {
        Seq::<char>::empty()
    };
    let digits = digits_of(magnitude(n));
    let used = sign.len() + digits.len();
    let fill = if used < width {
        (width - used) as nat
    } else {
        0
    };
    sign + zeros(fill) + digits
}

/// The part of `s` behind an optional leading `+` or `-`.
pub open spec fn unsigned_part(s: Seq<char>) -> Seq<char> {
    if s.len() > 0 && (s[0] == '+' || s[0] == '-') {
        s.subrange(1, s.len() as int)
    } else {
        s
    }
}

/// The signed 32-bit integer that `s` writes: an optional `+` or `-`, then one
/// or more ASCII digits and nothing else, with a value that fits. `None` for
/// any other text.
pub open spec fn parsed_i32(s: Seq<char>) -> Option<int> {
    let body = unsigned_part(s);
    if body.len() == 0 || !all_digits(body) {
        None
    } else {
        let value = if s[0] == '-' {
            -(digits_value(body) as int)
        } else {
            digits_value(body) as int
        };
        if i32::MIN <= value <= i32::MAX {
            Some(value)
        } else {
            None
        }
    }
}

/// Appending a digit never lowers the value.
pub proof fn lemma_digits_value_push(s: Seq<char>, c: char)
    requires
        is_digit(c),
    ensures
        digits_value(s.push(c)) == digits_value(s) * 10 + digit_value(c),
        digits_value(s.push(c)) >= digits_value(s),
{
    assert(s.push(c).drop_last() =~= s);
    assert(s.push(c).last() == c);
}

/// Reads a signed 32-bit integer from `s`.
pub fn parse_i32(s: &str) -> (r: Option<i32>)
    ensures
        match r {
            Some(v) => parsed_i32(s@) == Some(v as int),
            None => parsed_i32(s@) is None,
        },
{
    let n = s.unicode_len();
    if n == 0 {
        return None;
    }
    let first = s.get_char(0);
    let negative = first == '-';
    let start: usize = if first == '-' || first == '+' {
        1
    } else {
        0
    };
    let ghost body = unsigned_part(s@);
    assert(body =~= s@.subrange(start as int, n as int));
    if start == n {
        return None;
    }
    let limit: i64 = 2147483648;
    let mut acc: i64 = 0;
    let mut too_large = false;
    let mut i: usize = start;
    while i < n
        invariant
            start <= i <= n,
            n == s@.len(),
            limit == 2147483648,
            body == unsigned_part(s@),
            body == s@.subrange(start as int, n as int),
            negative == (s@[0] == '-'),
            all_digits(s@.subrange(start as int, i as int)),
            0 <= acc <= limit,
            !too_large ==> acc == digits_value(s@.subrange(start as int, i as int)),
            too_large ==> digits_value(s@.subrange(start as int, i as int)) > limit,
        decreases n - i,
    {
        let c = s.get_char(i);
        let ghost before = s@.subrange(start as int, i as int);
        let ghost after = s@.subrange(start as int, i as int + 1);
        if !(c >= '0' && c <= '9') {
            assert(body[i as int - start as int] == c);
            return None;
        }
        proof {
            assert(after =~= before.push(c));
            lemma_digits_value_push(before, c);
            assert forall|k: int| 0 <= k < after.len() implies is_digit(#[trigger] after[k]) by {
                if k < before.len() {
                    assert(after[k] == before[k]);
                }
            }
        }
        if !too_large {
            let d: i64 = (c as u32 - '0' as u32) as i64;
            let next: i64 = acc * 10 + d;
            if next > limit {
                too_large = true;
            } else {
                acc = next;
            }
        }
        i = i + 1;
    }
    assert(s@.subrange(start as int, i as int) =~= body);
    if too_large {
        return None;
    }
    if negative {
        Some((0 - acc) as i32)
    } else if acc == limit {
        None
    } else {
        Some(acc as i32)
    }
}

/// The one-character text of the digit `d`.
fn digit_str(d: u64) -> (r: &'static str)
    requires
        d < 10,
    ensures
        r@ == seq![digit_char(d as int)],
{
    proof {
        reveal_strlit("0");
        reveal_strlit("1");
        reveal_strlit("2");
        reveal_strlit("3");
        reveal_strlit("4");
        reveal_strlit("5");
        reveal_strlit("6");
        reveal_strlit("7");
        reveal_strlit("8");
        reveal_strlit("9");
    }
    let r = if d == 0 {
        "0"
    } else if d == 1 {
        "1"
    } else if d == 2 {
        "2"
    } else if d == 3 {
        "3"
    } else if d == 4 {
        "4"
    } else if d == 5 {
        "5"
    } else if d == 6 {
        "6"
    } else if d == 7 {
        "7"
    } else if d == 8 {
        "8"
    } else {
        "9"
    };
    assert(r@ =~= seq![digit_char(d as int)]);
    r
}

/// The size of `n` as an unsigned number.
fn magnitude_of(n: i64) -> (m: u64)
    ensures
        m == magnitude(n as int),
{
    if n < 0 {
        let below: i64 = -(n + 1);
        below as u64 + 1
    } else {
        n as u64
    }
}

/// Ten to the power `e`.
pub open spec fn pow10(e: nat) -> nat
    decreases e,
{
    if e == 0 {
        1
    } else {
        10 * pow10((e - 1) as nat)
    }
}

/// A number below ten to the power `k` has at most `k` digits.
pub proof fn lemma_digits_len_bound(n: nat, k: nat)
    requires
        k >= 1,
        n < pow10(k),
    ensures
        1 <= digits_of(n).len() <= k,
    decreases k,
{
    if n >= 10 {
        assert(pow10(1) == 10) by {
            reveal_with_fuel(pow10, 2);
        }
        assert(k >= 2);
        lemma_digits_len_bound(n / 10, (k - 1) as nat);
    }
}

/// An unsigned 64-bit number has at most twenty digits.
pub proof fn lemma_digits_len_u64(n: u64)
    ensures
        1 <= digits_of(n as nat).len() <= 20,
{
    assert(pow10(20) > u64::MAX) by {
        reveal_with_fuel(pow10, 21);
    }
    lemma_digits_len_bound(n as nat, 20);
}

/// How many digits `n` has.
fn digit_count(n: u64) -> (count: usize)
    ensures
        count == digits_of(n as nat).len(),
        1 <= count <= 20,
{
    let mut rest: u64 = n;
    let mut count: usize = 1;
    proof {
        lemma_digits_len_u64(n);
    }
    while rest >= 10
        invariant
            1 <= count,
            digits_of(rest as nat).len() >= 1,
            digits_of(n as nat).len() <= 20,
            count + digits_of(rest as nat).len() == digits_of(n as nat).len() + 1,
        decreases rest,
    {
        proof {
            lemma_digits_len_u64((rest / 10) as u64);
        }
        rest = rest / 10;
        count = count + 1;
    }
    count
}

/// Writes the digits of `n` at the end of `out`.
pub fn append_digits(out: &mut String, n: u64)
    ensures
        final(out)@ == old(out)@ + digits_of(n as nat),
    decreases n,
{
    if n >= 10 {
        append_digits(out, n / 10);
    }
    out.append(digit_str(n % 10));
    assert(final(out)@ =~= old(out)@ + digits_of(n as nat));
}

/// Writes `n` in decimal at the end of `out`.
pub fn append_decimal(out: &mut String, n: i64)
    ensures
        final(out)@ == old(out)@ + decimal(n as int),
{
    if n < 0 {
        proof {
            reveal_strlit("-");
        }
        out.append("-");
    }
    append_digits(out, magnitude_of(n));
    assert(final(out)@ =~= old(out)@ + decimal(n as int));
}

/// Writes `n` at the end of `out`, filled with zeros after the sign up to
/// `width` characters in all.
pub fn append_zero_padded(out: &mut String, n: i64, width: usize)
    ensures
        final(out)@ == old(out)@ + zero_padded(n as int, width as nat),
{
    let size = magnitude_of(n);
    let mut used: usize = digit_count(size);
    if n < 0 {
        proof {
            reveal_strlit("-");
        }
        out.append("-");
        used = used + 1;
    }
    let ghost signed = out@;
    let ghost start = used;
    while used < width
        invariant
            start <= used,
            used <= width || used == start,
            out@ == signed + zeros((used - start) as nat),
        decreases width - used,
    {
        proof {
            reveal_strlit("0");
        }
        out.append("0");
        used = used + 1;
        assert(out@ =~= signed + zeros((used - start) as nat));
    }
    append_digits(out, size);
    assert(final(out)@ =~= old(out)@ + zero_padded(n as int, width as nat));
}

/// The digits written for a number are digits, and read back they give the
/// number.
pub proof fn lemma_digits_round_trip(n: nat)
    ensures
        digits_of(n).len() >= 1,
        all_digits(digits_of(n)),
        digits_value(digits_of(n)) == n,
    decreases n,
{
    if n < 10 {
        let s = seq![digit_char(n as int)];
        assert(s.drop_last() =~= Seq::<char>::empty());
        assert(digits_value(s.drop_last()) == 0);
        assert(s.last() == digit_char(n as int));
    } else {
        lemma_digits_round_trip(n / 10);
        let c = digit_char((n % 10) as int);
        lemma_digits_value_push(digits_of(n / 10), c);
        assert forall|i: int| 0 <= i < digits_of(n).len() implies is_digit(
            #[trigger] digits_of(n)[i],
        ) by {
            if i < digits_of(n / 10).len() {
                assert(digits_of(n)[i] == digits_of(n / 10)[i]);
            }
        }
    }
}

/// Zeros in front of digits change neither that they are digits nor their
/// value.
pub proof fn lemma_leading_zeros(count: nat, s: Seq<char>)
    requires
        all_digits(s),
    ensures
        all_digits(zeros(count) + s),
        digits_value(zeros(count) + s) == digits_value(s),
    decreases s.len(), count,
{
    let whole = zeros(count) + s;
    assert forall|i: int| 0 <= i < whole.len() implies is_digit(#[trigger] whole[i]) by {
        if i >= count {
            assert(whole[i] == s[i - count]);
        }
    }
    if s.len() > 0 {
        assert(whole.drop_last() =~= zeros(count) + s.drop_last());
        assert forall|i: int| 0 <= i < s.drop_last().len() implies is_digit(
            #[trigger] s.drop_last()[i],
        ) by {
            assert(s.drop_last()[i] == s[i]);
        }
        lemma_leading_zeros(count, s.drop_last());
        assert(whole.last() == s.last());
    } else if count > 0 {
        assert(whole.drop_last() =~= zeros((count - 1) as nat) + s);
        lemma_leading_zeros((count - 1) as nat, s);
        assert(whole.last() == '0');
    } else {
        assert(whole =~= s);
    }
}

/// A number that fits 32 bits, written with zero padding, reads back as
/// itself.
pub proof fn lemma_zero_padded_parses(n: int, width: nat)
    requires
        i32::MIN <= n <= i32::MAX,
    ensures
        parsed_i32(zero_padded(n, width)) == Some(n),
        zero_padded(n, width).len() >= width,
        zero_padded(n, width).len() >= 1,
{
    let digits = digits_of(magnitude(n));
    lemma_digits_round_trip(magnitude(n));
    let used = (if n < 0 {
        1nat
    } else {
        0nat
    }) + digits.len();
    let fill: nat = if used < width {
        (width - used) as nat
    } else {
        0
    };
    let body = zeros(fill) + digits;
    lemma_leading_zeros(fill, digits);
    let text = zero_padded(n, width);
    if n < 0 {
        assert(text =~= seq!['-'] + body);
        assert(text[0] == '-');
        assert(unsigned_part(text) =~= body);
    } else {
        assert(text =~= body);
        assert(is_digit(body[0]));
        assert(unsigned_part(text) =~= body);
    }
}

/// A number that fits 32 bits, written in decimal, reads back as itself.
pub proof fn lemma_decimal_parses(n: int)
    requires
        i32::MIN <= n <= i32::MAX,
    ensures
        parsed_i32(decimal(n)) == Some(n),
{
    lemma_zero_padded_parses(n, 0);
    let digits = digits_of(magnitude(n));
    assert(zeros(0) + digits =~= digits);
    if n < 0 {
        assert(zero_padded(n, 0) =~= seq!['-'] + zeros(0) + digits);
        assert(zero_padded(n, 0) =~= decimal(n));
    } else {
        assert(zero_padded(n, 0) =~= decimal(n));
    }
}

} // verus!
