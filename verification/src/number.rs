//! The numeric words of the text formats: which words are decimal numbers,
//! and what the integers among them denote.
use vstd::prelude::*;

verus! {

/// Whether `c` is a decimal digit.
pub open spec fn is_digit(c: char) -> bool {
    '0' <= c <= '9'
}

/// Whether `c` is a plus or a minus sign.
pub open spec fn is_sign(c: char) -> bool {
    c == '+' || c == '-'
}

/// The value of the decimal digit `c`.
pub open spec fn digit_value(c: char) -> nat {
    (c as u32 - '0' as u32) as nat
}

/// Whether `t` is made of decimal digits only.
pub open spec fn all_digits(t: Seq<char>) -> bool {
    forall|i: int| 0 <= i < t.len() ==> is_digit(#[trigger] t[i])
}

/// The number that the digits of `t` write in base ten.
pub open spec fn digits_value(t: Seq<char>) -> nat
    decreases t.len(),
{
    if t.len() == 0 {
        0
    } else {
        digits_value(t.drop_last()) * 10 + digit_value(t.last())
    }
}

/// The number of digits that `t` starts with.
pub open spec fn digit_run(t: Seq<char>) -> nat
    decreases t.len(),
{
    if t.len() == 0 || !is_digit(t[0]) {
        0
    } else {
        1 + digit_run(t.drop_first())
    }
}

/// What a word denotes as a signed integer: an optional sign and then one or
/// more digits, nothing else.
pub open spec fn signed_value(t: Seq<char>) -> Option<int> {
    let signed = t.len() > 0 && is_sign(t[0]);
    let digits = if signed { t.skip(1) } else { t };
    if digits.len() == 0 || !all_digits(digits) {
        None
    } else if signed && t[0] == '-' {
        Some(-(digits_value(digits) as int))
    } else {
        Some(digits_value(digits) as int)
    }
}

/// What a word denotes as an unsigned integer: an optional `+` and then one
/// or more digits, nothing else.
pub open spec fn unsigned_value(t: Seq<char>) -> Option<nat> {
    let signed = t.len() > 0 && t[0] == '+';
    let digits = if signed { t.skip(1) } else { t };
    if digits.len() == 0 || !all_digits(digits) {
        None
    } else {
        Some(digits_value(digits))
    }
}

/// The word as a machine integer, where it denotes one that fits.
pub open spec fn isize_value(t: Seq<char>) -> Option<isize> {
    match signed_value(t) {
        Some(v) => if isize::MIN <= v <= isize::MAX {
            Some(v as isize)
        } else {
            None
        },
        None => None,
    }
}

/// The word as a byte, where it denotes one that fits.
pub open spec fn u8_value(t: Seq<char>) -> Option<u8> {
    match unsigned_value(t) {
        Some(v) => if v <= u8::MAX {
            Some(v as u8)
        } else {
            None
        },
        None => None,
    }
}

/// Whether `c` is the letter `lower`, which is in lower case, in either case.
pub open spec fn same_letter(c: char, lower: char) -> bool {
    c == lower || c as u32 + 32 == lower as u32
}

/// Whether `t` spells `word`, which is in lower case, in any mix of cases.
pub open spec fn spells(t: Seq<char>, word: Seq<char>) -> bool {
    &&& t.len() == word.len()
    &&& forall|i: int| 0 <= i < t.len() ==> same_letter(#[trigger] t[i], word[i])
}

/// Whether `t` is an exponent part: `e` or `E`, an optional sign, and one or
/// more digits.
pub open spec fn is_exponent(t: Seq<char>) -> bool {
    &&& t.len() >= 2
    &&& (t[0] == 'e' || t[0] == 'E')
    &&& {
        let digits = if is_sign(t[1]) { t.skip(2) } else { t.skip(1) };
        digits.len() > 0 && all_digits(digits)
    }
}

/// Whether `t` is a decimal number without a sign: digits with at most one
/// point among them, at least one digit in all, and then an optional exponent.
pub open spec fn is_decimal(t: Seq<char>) -> bool {
    let whole = digit_run(t);
    let after_whole = t.skip(whole as int);
    let pointed = after_whole.len() > 0 && after_whole[0] == '.';
    let after_point = if pointed { after_whole.skip(1) } else { after_whole };
    let fraction = if pointed { digit_run(after_point) } else { 0 };
    let rest = after_point.skip(fraction as int);
    whole + fraction >= 1 && (rest.len() == 0 || is_exponent(rest))
}

/// Whether `t` is a real number as the text formats write it: an optional
/// sign, and then a decimal number or one of the words `inf`, `infinity` and
/// `nan` in any mix of cases.
pub open spec fn is_real(t: Seq<char>) -> bool {
    let body = if t.len() > 0 && is_sign(t[0]) { t.skip(1) } else { t };
    ||| is_decimal(body)
    ||| spells(body, seq!['i', 'n', 'f'])
    ||| spells(body, seq!['n', 'a', 'n'])
    ||| spells(body, seq!['i', 'n', 'f', 'i', 'n', 'i', 't', 'y'])
}

/// A run of digits ends at a character that is no digit or at the end of
/// the text, and holds digits only.
pub proof fn lemma_digit_run_bound(t: Seq<char>)
    ensures
        digit_run(t) <= t.len(),
        digit_run(t) < t.len() ==> !is_digit(t[digit_run(t) as int]),
        forall|i: int| 0 <= i < digit_run(t) ==> is_digit(t[i]),
    decreases t.len(),
{
    if t.len() == 0 || !is_digit(t[0]) {
    } else {
        lemma_digit_run_bound(t.drop_first());
        assert forall|i: int| 0 <= i < digit_run(t) implies is_digit(t[i]) by {
            if i > 0 {
                assert(t[i] == t.drop_first()[i - 1]);
            }
        }
    }
}

/// More digits never write a smaller number.
pub proof fn lemma_digits_value_grows(t: Seq<char>, k: int)
    requires
        0 <= k <= t.len(),
    ensures
        digits_value(t.take(k)) <= digits_value(t),
    decreases t.len() - k,
{
    if k == t.len() {
        assert(t.take(k) =~= t);
    } else {
        lemma_digits_value_grows(t, k + 1);
        assert(t.take(k + 1).drop_last() =~= t.take(k));
    }
}

/// Whether `c` is a decimal digit.
pub fn is_ascii_digit(c: char) -> (b: bool)
    ensures
        b == is_digit(c),
{
    '0' <= c && c <= '9'
}

/// The number that the digits of `t` from `from` on write, if it is at most
/// `limit`; `None` where a character is no digit, there is none at all, or
/// the number is larger.
fn parse_digits(t: &Vec<char>, from: usize, limit: u64) -> (out: Option<u64>)
    requires
        from <= t.len(),
        limit <= 0x8000_0000_0000_0000,
    ensures
        out == ({
            let digits = t@.skip(from as int);
            if digits.len() > 0 && all_digits(digits) && digits_value(digits) <= limit {
                Some(digits_value(digits) as u64)
            } else {
                None
            }
        }),
{
    let ghost digits = t@.skip(from as int);
    if from == t.len() {
        return None;
    }
    let mut acc: u64 = 0;
    let mut i: usize = from;
    assert(digits.take(0) =~= Seq::<char>::empty());
    while i < t.len()
        invariant
            from <= i <= t.len(),
            digits == t@.skip(from as int),
            limit <= 0x8000_0000_0000_0000,
            all_digits(digits.take(i - from)),
            acc == digits_value(digits.take(i - from)),
            acc <= limit,
        decreases t.len() - i,
    {
        let c = t[i];
        assert(c == digits[i - from]);
        if !is_ascii_digit(c) {
            return None;
        }
        let d: u64 = (c as u32 - '0' as u32) as u64;
        assert(digits.take(i + 1 - from).drop_last() =~= digits.take(i - from));
        assert(digits.take(i + 1 - from).last() == c);
        assert(digits_value(digits.take(i + 1 - from)) == acc * 10 + d);
        if d > limit || acc > (limit - d) / 10 {
            proof {
                lemma_digits_value_grows(digits, i + 1 - from);
            }
            return None;
        }
        acc = acc * 10 + d;
        i += 1;
    }
    assert(digits.take(i - from) =~= digits);
    Some(acc)
}

/// Reads `t` as a signed machine integer.
pub fn parse_isize(t: &Vec<char>) -> (out: Option<isize>)
    ensures
        out == isize_value(t@),
{
    if t.len() == 0 {
        return None;
    }
    let first = t[0];
    let negative = first == '-';
    let from: usize = if first == '-' || first == '+' { 1 } else { 0 };
    assert(t@.skip(0) =~= t@);
    let max: u64 = isize::MAX as u64;
    let limit: u64 = if negative { max + 1 } else { max };
    match parse_digits(t, from, limit) {
        None => None,
        Some(v) => {
            if negative {
                if v == 0 {
                    Some(0)
                } else {
                    let w: isize = (v - 1) as isize;
                    Some(-w - 1)
                }
            } else {
                Some(v as isize)
            }
        },
    }
}

/// Reads `t` as a byte.
pub fn parse_u8(t: &Vec<char>) -> (out: Option<u8>)
    ensures
        out == u8_value(t@),
{
    if t.len() == 0 {
        return None;
    }
    let from: usize = if t[0] == '+' { 1 } else { 0 };
    assert(t@.skip(0) =~= t@);
    match parse_digits(t, from, 255) {
        None => None,
        Some(v) => Some(v as u8),
    }
}

/// The number of digits of `t` that follow one another from position `from`.
fn count_digits(t: &Vec<char>, from: usize) -> (n: usize)
    requires
        from <= t.len(),
    ensures
        n == digit_run(t@.skip(from as int)),
        from + n <= t.len(),
        (n == t.len() - from) == all_digits(t@.skip(from as int)),
{
    let mut i: usize = from;
    while i < t.len() && is_ascii_digit(t[i])
        invariant
            from <= i <= t.len(),
            digit_run(t@.skip(from as int)) == (i - from) + digit_run(t@.skip(i as int)),
        decreases t.len() - i,
    {
        assert(t@.skip(i as int).drop_first() =~= t@.skip(i + 1));
        i += 1;
    }
    proof {
        lemma_digit_run_bound(t@.skip(from as int));
    }
    i - from
}

/// Whether `c` is the letter `lower`, which is in lower case, in either case.
fn is_letter(c: char, lower: char) -> (b: bool)
    ensures
        b == same_letter(c, lower),
{
    c == lower || c as u32 + 32 == lower as u32
}

/// Whether `t` from position `from` on is one of the words for a value that
/// is no number.
fn is_special(t: &Vec<char>, from: usize) -> (b: bool)
    requires
        from <= t.len(),
    ensures
        b == ({
            let body = t@.skip(from as int);
            ||| spells(body, seq!['i', 'n', 'f'])
            ||| spells(body, seq!['n', 'a', 'n'])
            ||| spells(body, seq!['i', 'n', 'f', 'i', 'n', 'i', 't', 'y'])
        }),
{
    let ghost body = t@.skip(from as int);
    let n = t.len() - from;
    if n == 3 {
        let inf = is_letter(t[from], 'i') && is_letter(t[from + 1], 'n') && is_letter(
            t[from + 2],
            'f',
        );
        let nan = is_letter(t[from], 'n') && is_letter(t[from + 1], 'a') && is_letter(
            t[from + 2],
            'n',
        );
        proof {
            let w = seq!['i', 'n', 'f'];
            let v = seq!['n', 'a', 'n'];
            assert(body[0] == t[from as int] && body[1] == t[from + 1] && body[2] == t[from + 2]);
            assert(w[0] == 'i' && w[1] == 'n' && w[2] == 'f');
            assert(v[0] == 'n' && v[1] == 'a' && v[2] == 'n');
        }
        inf || nan
    } else if n == 8 {
        let b = is_letter(t[from], 'i') && is_letter(t[from + 1], 'n') && is_letter(
            t[from + 2],
            'f',
        ) && is_letter(t[from + 3], 'i') && is_letter(t[from + 4], 'n') && is_letter(
            t[from + 5],
            'i',
        ) && is_letter(t[from + 6], 't') && is_letter(t[from + 7], 'y');
        proof {
            let w = seq!['i', 'n', 'f', 'i', 'n', 'i', 't', 'y'];
            assert(body[0] == t[from as int] && body[1] == t[from + 1] && body[2] == t[from + 2]
                && body[3] == t[from + 3] && body[4] == t[from + 4] && body[5] == t[from + 5]
                && body[6] == t[from + 6] && body[7] == t[from + 7]);
            assert(w[0] == 'i' && w[1] == 'n' && w[2] == 'f' && w[3] == 'i' && w[4] == 'n' && w[5]
                == 'i' && w[6] == 't' && w[7] == 'y');
        }
        b
    } else {
        false
    }
}

/// Whether `t` from position `from` on is an exponent part.
fn is_exponent_at(t: &Vec<char>, from: usize) -> (b: bool)
    requires
        from <= t.len(),
    ensures
        b == is_exponent(t@.skip(from as int)),
{
    let ghost rest = t@.skip(from as int);
    if t.len() - from < 2 {
        return false;
    }
    assert(rest[0] == t[from as int] && rest[1] == t[from + 1]);
    if t[from] != 'e' && t[from] != 'E' {
        return false;
    }
    let sign = t[from + 1];
    let start: usize = if sign == '+' || sign == '-' { from + 2 } else { from + 1 };
    assert(rest.skip(start - from) =~= t@.skip(start as int));
    let n = count_digits(t, start);
    n > 0 && n == t.len() - start
}

/// Whether `t` from position `from` on is a decimal number without a sign.
fn is_decimal_at(t: &Vec<char>, from: usize) -> (b: bool)
    requires
        from <= t.len(),
    ensures
        b == is_decimal(t@.skip(from as int)),
{
    let ghost body = t@.skip(from as int);
    let whole = count_digits(t, from);
    let dot: usize = from + whole;
    assert(body.skip(whole as int) =~= t@.skip(dot as int));
    let pointed = dot < t.len() && t[dot] == '.';
    let start: usize = if pointed { dot + 1 } else { dot };
    assert(t@.skip(dot as int).len() > 0 ==> t@.skip(dot as int)[0] == t[dot as int]);
    assert(pointed ==> t@.skip(dot as int).skip(1) =~= t@.skip(start as int));
    let fraction: usize = if pointed { count_digits(t, start) } else { 0 };
    let rest: usize = start + fraction;
    assert(t@.skip(start as int).skip(fraction as int) =~= t@.skip(rest as int));
    if whole == 0 && fraction == 0 {
        return false;
    }
    if rest == t.len() {
        return true;
    }
    is_exponent_at(t, rest)
}

/// Whether `t` is a real number as the text formats write it.
pub fn is_real_word(t: &Vec<char>) -> (b: bool)
    ensures
        b == is_real(t@),
{
    let from: usize = if t.len() > 0 && (t[0] == '+' || t[0] == '-') { 1 } else { 0 };
    assert(t@.skip(0) =~= t@);
    is_decimal_at(t, from) || is_special(t, from)
}

} // verus!
