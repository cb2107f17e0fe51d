//! Registration codes: how the next code of a series follows from the last
//! one that was issued.

use crate::decimal::{
    append_decimal, append_zero_padded, decimal, digits_of, digits_value, lemma_decimal_parses,
    lemma_digits_len_bound, lemma_zero_padded_parses, parse_i32, parsed_i32, pow10,
    unsigned_part, zero_padded,
};
use crate::outside::{first_match, regex_first_match};
use vstd::prelude::*;

verus! {

/// The code that opens the admin series.
pub open spec fn first_code() -> Seq<char> {
    "G00001"@
}

/// The admin code that follows `last`: the first character of `last`, then
/// the number behind it raised by one and zero-padded to five places. A code
/// of fewer than two characters, or one whose tail is no number, starts the
/// series anew.
pub open spec fn code_after(last: Seq<char>) -> Seq<char> {
    if last.len() >= 2 {
        match parsed_i32(last.subrange(1, last.len() as int)) {
            Some(n) => seq![last[0]] + zero_padded(n + 1, 5),
            None => first_code(),
        }
    } else {
        first_code()
    }
}

/// The regular expression for the digits at the end of a code.
pub open spec fn trailing_digits() -> Seq<char> {
    "\\d+$"@
}

/// `code` holds a `G` and, somewhere behind it, a `U`.
pub open spec fn sub_user_shape(code: Seq<char>) -> bool {
    exists|i: int, j: int| 0 <= i < j < code.len() && code[i] == 'G' && code[j] == 'U'
}

/// `code` ends in the two characters `09`.
pub open spec fn ends_in_09(code: Seq<char>) -> bool {
    code.len() >= 2 && code[code.len() - 2] == '0' && code[code.len() - 1] == '9'
}

/// `code` without its last `count` characters.
pub open spec fn without_last(code: Seq<char>, count: int) -> Seq<char> {
    code.subrange(0, code.len() - count)
}

/// The last character of `code`, as a text of its own.
pub open spec fn last_char(code: Seq<char>) -> Seq<char> {
    code.subrange(code.len() - 1, code.len() as int)
}

/// The sub-user code that follows `code`, where `digits` is the run of digits
/// found at the end of `code`, if one was found.
///
/// A code that ends in `09` loses both characters and gains `10`. Otherwise
/// the run found is cut off, read as a number, raised by one and written back
/// without padding. Where no run was found the last character alone is tried
/// in the same way. The result is empty where the text that was tried is no
/// number.
pub open spec fn sub_user_code_after(code: Seq<char>, digits: Option<Seq<char>>) -> Seq<char>
    recommends
        code.len() >= 1,
        digits is Some ==> digits->0.len() <= code.len(),
{
    if ends_in_09(code) {
        without_last(code, 2) + decimal(9int + 1)
    } else {
        match digits {
            Some(run) => match parsed_i32(run) {
                Some(n) => without_last(code, run.len() as int) + decimal(n + 1),
                None => Seq::empty(),
            },
            None => match parsed_i32(last_char(code)) {
                Some(n) => without_last(code, 1) + decimal(n + 1),
                None => Seq::empty(),
            },
        }
    }
}

/// The code that opens the admin series.
pub fn first_admin_code() -> (r: String)
    ensures
        r@ == first_code(),
{
    String::from_str("G00001")
}

/// The admin code that follows `last`.
pub fn admin_code_after(last: &str) -> (r: String)
    ensures
        r@ == code_after(last@),
{
    let n = last.unicode_len();
    if n < 2 {
        return first_admin_code();
    }
    match parse_i32(last.substring_char(1, n)) {
        Some(number) => {
            let mut code = String::from_str(last.substring_char(0, 1));
            assert(code@ =~= seq![last@[0]]);
            append_zero_padded(&mut code, number as i64 + 1, 5);
            code
        },
        None => first_admin_code(),
    }
}

/// Tells whether `code` holds a `G` and, somewhere behind it, a `U`.
pub fn has_sub_user_shape(code: &str) -> (r: bool)
    ensures
        r == sub_user_shape(code@),
{
    let n = code.unicode_len();
    let mut seen_g = false;
    let mut i: usize = 0;
    while i < n
        invariant
            i <= n,
            n == code@.len(),
            seen_g <==> exists|k: int| 0 <= k < i && code@[k] == 'G',
            forall|a: int, b: int| 0 <= a < b < i ==> !(code@[a] == 'G' && code@[b] == 'U'),
        decreases n - i,
    {
        let c = code.get_char(i);
        if seen_g && c == 'U' {
            let ghost k = choose|k: int| 0 <= k < i && code@[k] == 'G';
            assert(0 <= k < i < code@.len() && code@[k] == 'G' && code@[i as int] == 'U');
            return true;
        }
        if c == 'G' {
            seen_g = true;
        }
        i = i + 1;
    }
    false
}

/// The sub-user code that follows `code`, given the run of digits found at
/// its end.
pub fn sub_user_code_from(code: &str, digits: Option<&str>) -> (r: String)
    requires
        code@.len() >= 1,
        digits matches Some(run) ==> run@.len() <= code@.len(),
    ensures
        r@ == sub_user_code_after(
            code@,
            match digits {
                Some(run) => Some(run@),
                None => None,
            },
        ),
{
    let n = code.unicode_len();
    if n >= 2 && code.get_char(n - 2) == '0' && code.get_char(n - 1) == '9' {
        let mut next = String::from_str(code.substring_char(0, n - 2));
        append_decimal(&mut next, 9 + 1);
        return next;
    }
    let (tried, cut): (Option<i32>, usize) = match digits {
        Some(run) => (parse_i32(run), run.unicode_len()),
        None => (parse_i32(code.substring_char(n - 1, n)), 1),
    };
    match tried {
        Some(number) => {
            let mut next = String::from_str(code.substring_char(0, n - cut));
            append_decimal(&mut next, number as i64 + 1);
            next
        },
        None => String::new(),
    }
}

/// The sub-user code that follows `code`: the digits at its end are looked up
/// with the regular expression `trailing_digits`.
pub fn next_sub_user_code(code: &str) -> (r: String)
    requires
        code@.len() >= 1,
    ensures
        r@ == sub_user_code_after(code@, regex_first_match(trailing_digits(), code@)),
{
    let found = first_match("\\d+$", code);
    match found {
        Some(run) => sub_user_code_from(code, Some(run.as_str())),
        None => sub_user_code_from(code, None),
    }
}

/// Admin codes count up: where the tail of `last` is the number `n`, the code
/// after `last` keeps the first character of `last` and its tail is the
/// number `n + 1`. While that number has at most five digits the code has six
/// characters.
pub proof fn lemma_admin_codes_count_up(last: Seq<char>, n: int)
    requires
        last.len() >= 2,
        parsed_i32(last.subrange(1, last.len() as int)) == Some(n),
        n < i32::MAX,
    ensures
        code_after(last).len() >= 2,
        code_after(last)[0] == last[0],
        parsed_i32(code_after(last).subrange(1, code_after(last).len() as int)) == Some(n + 1),
        0 <= n + 1 < 100000 ==> code_after(last).len() == 6,
{
    let next = code_after(last);
    let tail = zero_padded(n + 1, 5);
    lemma_zero_padded_parses(n + 1, 5);
    assert(next =~= seq![last[0]] + tail);
    assert(next.subrange(1, next.len() as int) =~= tail);
    if 0 <= n + 1 < 100000 {
        assert(pow10(5) == 100000) by {
            reveal_with_fuel(pow10, 6);
        }
        lemma_digits_len_bound((n + 1) as nat, 5);
        assert(tail.len() == 5);
    }
}

/// A series that starts anew starts at one: the tail of the first code is the
/// number 1.
pub proof fn lemma_first_code_is_one()
    ensures
        first_code().len() == 6,
        first_code()[0] == 'G',
        parsed_i32(first_code().subrange(1, 6)) == Some(1int),
{
    reveal_strlit("G00001");
    let tail = first_code().subrange(1, 6);
    reveal_with_fuel(digits_of, 2);
    assert(tail =~= zero_padded(1, 5));
    lemma_zero_padded_parses(1, 5);
}

/// Sub-user codes count up without padding: where the run found at the end
/// of `code` is the number `n`, and `code` does not end in `09`, the next
/// code is `code` without the run, followed by `n + 1` in plain decimal.
pub proof fn lemma_sub_user_codes_count_up(code: Seq<char>, run: Seq<char>, n: int)
    requires
        !ends_in_09(code),
        parsed_i32(run) == Some(n),
    ensures
        sub_user_code_after(code, Some(run)) == without_last(code, run.len() as int) + decimal(
            n + 1,
        ),
        n < i32::MAX ==> parsed_i32(decimal(n + 1)) == Some(n + 1),
{
    if n < i32::MAX {
        lemma_decimal_parses(n + 1);
    }
}

/// A code that ends in a `9` which no `0` precedes, with that `9` as the run
/// found, is followed by the code with `10` in place of the `9`: the number
/// grows by a digit.
pub proof fn lemma_nine_rolls_over(code: Seq<char>)
    requires
        code.len() >= 1,
        code.last() == '9',
        !ends_in_09(code),
    ensures
        sub_user_code_after(code, Some(seq!['9'])) == without_last(code, 1) + seq!['1', '0'],
{
    let run = seq!['9'];
    assert(unsigned_part(run) =~= run);
    assert(run.drop_last() =~= Seq::<char>::empty());
    assert(digits_value(run.drop_last()) == 0);
    assert(digits_value(run) == 9);
    assert(parsed_i32(run) == Some(9int));
    reveal_with_fuel(digits_of, 2);
    assert(decimal(10) =~= seq!['1', '0']);
}

/// A code that ends in `09` is followed by the code with `10` in place of
/// the `09`, whatever run was found.
pub proof fn lemma_09_rolls_over(code: Seq<char>, digits: Option<Seq<char>>)
    requires
        ends_in_09(code),
    ensures
        sub_user_code_after(code, digits) == without_last(code, 2) + seq!['1', '0'],
{
    reveal_with_fuel(digits_of, 2);
    assert(decimal(10) =~= seq!['1', '0']);
}

} // verus!
