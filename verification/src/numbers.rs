//! Decimal integers, float literals and UTF-8 byte lengths, over characters.
use vstd::prelude::*;
use crate::text::{chars_of, find, first_index};

verus! {

pub open spec fn is_digit(c: char) -> bool {
    '0' <= c && c <= '9'
}

pub open spec fn digit_value(c: char) -> int {
    c as int - '0' as int
}

pub open spec fn all_digits(s: Seq<char>) -> bool {
    forall|i: int| 0 <= i < s.len() ==> #[trigger] is_digit(s[i])
}

/// Why `str::parse::<u32>` refuses a text (the kinds of `ParseIntError`).
#[derive(Debug, Clone, Copy, PartialEq, Eq, Structural)]
pub enum IntError {
    Empty,
    InvalidDigit,
    PosOverflow,
}

/// Reads decimal digits left to right onto `acc`, refusing the first char that is not a
/// digit, and refusing as soon as the value passes `u32::MAX`.
pub open spec fn scan_u32(d: Seq<char>, acc: int) -> Result<u32, IntError>
    decreases d.len(),
{
    if d.len() == 0 {
        Ok(acc as u32)
    } else if !is_digit(d[0]) {
        Err(IntError::InvalidDigit)
    } else if acc * 10 + digit_value(d[0]) > u32::MAX {
        Err(IntError::PosOverflow)
    } else {
        scan_u32(d.drop_first(), acc * 10 + digit_value(d[0]))
    }
}

/// The result of `str::parse::<u32>`: an optional `+`, then decimal digits.
pub open spec fn decimal_u32(s: Seq<char>) -> Result<u32, IntError> {
    if s.len() == 0 {
        Err(IntError::Empty)
    } else if s.len() == 1 && (s[0] == '+' || s[0] == '-') {
        Err(IntError::InvalidDigit)
    } else if s[0] == '+' {
        scan_u32(s.drop_first(), 0)
    } else {
        scan_u32(s, 0)
    }
}

/// The text that `ParseIntError` displays for each kind.
pub open spec fn int_error_text(e: IntError) -> Seq<char> {
    match e {
        IntError::Empty => "cannot parse integer from empty string"@,
        IntError::InvalidDigit => "invalid digit found in string"@,
        IntError::PosOverflow => "number too large to fit in target type"@,
    }
}

pub fn int_error_message(e: IntError) -> (r: &'static str)
    ensures
        r@ == int_error_text(e),
{
    match e {
        IntError::Empty => "cannot parse integer from empty string",
        IntError::InvalidDigit => "invalid digit found in string",
        IntError::PosOverflow => "number too large to fit in target type",
    }
}

fn digit_of(c: char) -> (r: Option<u32>)
    ensures
        r matches Some(d) ==> is_digit(c) && d == digit_value(c),
        r is None ==> !is_digit(c),
{
    if '0' <= c && c <= '9' {
        Some((c as u32) - ('0' as u32))
    } else {
        None
    }
}

/// Parses `s` as `str::parse::<u32>` does.
pub fn parse_u32(s: &[char]) -> (r: Result<u32, IntError>)
    ensures
        r == decimal_u32(s@),
{
    let n = s.len();
    if n == 0 {
        return Err(IntError::Empty);
    }
    if n == 1 && (s[0] == '+' || s[0] == '-') {
        return Err(IntError::InvalidDigit);
    }
    let start: usize = if s[0] == '+' { 1 } else { 0 };
    let ghost d = s@.skip(start as int);
    assert(decimal_u32(s@) == scan_u32(d, 0)) by {
        if start == 0 {
            assert(d =~= s@);
        } else {
            assert(d =~= s@.drop_first());
        }
    }
    let mut acc: u32 = 0;
    let mut i: usize = start;
    while i < n
        invariant
            n == s@.len(),
            start <= i <= n,
            d == s@.skip(start as int),
            decimal_u32(s@) == scan_u32(s@.skip(i as int), acc as int),
        decreases n - i,
    {
        assert(s@.skip(i as int)[0] == s@[i as int]);
        assert(s@.skip(i as int).drop_first() =~= s@.skip(i + 1));
        match digit_of(s[i]) {
            None => {
                return Err(IntError::InvalidDigit);
            },
            Some(v) => {
                let next: u64 = (acc as u64) * 10 + (v as u64);
                if next > (u32::MAX as u64) {
                    return Err(IntError::PosOverflow);
                }
                acc = next as u32;
            },
        }
        i = i + 1;
    }
    assert(s@.skip(n as int).len() == 0);
    Ok(acc)
}

/// Why `str::parse::<f64>` refuses a text (the kinds of `ParseFloatError`).
#[derive(Debug, Clone, Copy, PartialEq, Eq, Structural)]
pub enum FloatError {
    Empty,
    Invalid,
}

pub open spec fn float_error_text(e: FloatError) -> Seq<char> {
    match e {
        FloatError::Empty => "cannot parse float from empty string"@,
        FloatError::Invalid => "invalid float literal"@,
    }
}

pub fn float_error_message(e: FloatError) -> (r: &'static str)
    ensures
        r@ == float_error_text(e),
{
    match e {
        FloatError::Empty => "cannot parse float from empty string",
        FloatError::Invalid => "invalid float literal",
    }
}

/// `s` spells the lower-case ASCII word `w` with any letter case.
pub open spec fn same_word_any_case(s: Seq<char>, w: Seq<char>) -> bool {
    s.len() == w.len() && forall|i: int|
        0 <= i < s.len() ==> (#[trigger] s[i] == w[i] || (s[i] as u32) + 32 == (w[i] as u32))
}

/// Digits around at most one `.`, with at least one digit in all.
pub open spec fn is_mantissa(m: Seq<char>) -> bool {
    match first_index(m, "."@) {
        None => m.len() >= 1 && all_digits(m),
        Some(i) => all_digits(m.take(i)) && all_digits(m.skip(i + 1)) && m.len() >= 2,
    }
}

/// Digits after an optional sign, at least one.
pub open spec fn is_exponent(e: Seq<char>) -> bool {
    ||| (e.len() >= 1 && all_digits(e))
    ||| (e.len() >= 2 && (e[0] == '+' || e[0] == '-') && all_digits(e.drop_first()))
}

/// The first position at or after `i` that holds `e` or `E`.
pub open spec fn exponent_marker_from(t: Seq<char>, i: int) -> Option<int>
    decreases t.len() - i,
{
    if i < 0 || i >= t.len() {
        None
    } else if t[i] == 'e' || t[i] == 'E' {
        Some(i)
    } else {
        exponent_marker_from(t, i + 1)
    }
}

pub open spec fn is_number(t: Seq<char>) -> bool {
    match exponent_marker_from(t, 0) {
        None => is_mantissa(t),
        Some(k) => is_mantissa(t.take(k)) && is_exponent(t.skip(k + 1)),
    }
}

pub open spec fn is_float_body(t: Seq<char>) -> bool {
    ||| same_word_any_case(t, "inf"@)
    ||| same_word_any_case(t, "infinity"@)
    ||| same_word_any_case(t, "nan"@)
    ||| is_number(t)
}

/// The grammar that `f64::from_str` documents: an optional sign, then `inf`, `infinity`,
/// `nan` (in any case) or a decimal number with an optional exponent.
pub open spec fn is_float_literal(s: Seq<char>) -> bool {
    if s.len() > 0 && (s[0] == '+' || s[0] == '-') {
        is_float_body(s.drop_first())
    } else {
        is_float_body(s)
    }
}

/// Whether and why `str::parse::<f64>` refuses `s`.
pub open spec fn float_refusal(s: Seq<char>) -> Option<FloatError> {
    if s.len() == 0 {
        Some(FloatError::Empty)
    } else if is_float_literal(s) {
        None
    } else {
        Some(FloatError::Invalid)
    }
}

fn same_word_any_case_exec(s: &[char], w: &str) -> (r: bool)
    ensures
        r == same_word_any_case(s@, w@),
{
    let wv = chars_of(w);
    if s.len() != wv.len() {
        return false;
    }
    let mut i: usize = 0;
    while i < s.len()
        invariant
            wv@ == w@,
            s@.len() == wv@.len(),
            i <= s@.len(),
            forall|k: int|
                0 <= k < i ==> (#[trigger] s@[k] == wv@[k] || (s@[k] as u32) + 32 == (wv@[k] as u32)),
        decreases s@.len() - i,
    {
        let c = s[i];
        let l = wv[i];
        let cv = c as u32;
        let lv = l as u32;
        if !(c == l || (lv >= 32 && cv == lv - 32)) {
            assert(!(s@[i as int] == wv@[i as int] || (s@[i as int] as u32) + 32 == (wv@[i as int] as u32)));
            return false;
        }
        i = i + 1;
    }
    true
}

fn all_digits_exec(s: &[char]) -> (r: bool)
    ensures
        r == all_digits(s@),
{
    let mut i: usize = 0;
    while i < s.len()
        invariant
            i <= s@.len(),
            forall|k: int| 0 <= k < i ==> #[trigger] is_digit(s@[k]),
        decreases s@.len() - i,
    {
        if !('0' <= s[i] && s[i] <= '9') {
            assert(!is_digit(s@[i as int]));
            return false;
        }
        i = i + 1;
    }
    true
}

fn is_mantissa_exec(m: &[char]) -> (r: bool)
    ensures
        r == is_mantissa(m@),
{
    proof {
        reveal_strlit(".");
    }
    assert("."@.len() == 1);
    match find(m, ".") {
        None => m.len() >= 1 && all_digits_exec(m),
        Some(i) => {
            let n = m.len();
            assert(i + 1 <= n);
            let before = &m[0..i];
            let after = &m[i + 1..n];
            assert(before@ =~= m@.take(i as int));
            assert(after@ =~= m@.skip(i + 1));
            all_digits_exec(before) && all_digits_exec(after) && m.len() >= 2
        },
    }
}

fn is_exponent_exec(e: &[char]) -> (r: bool)
    ensures
        r == is_exponent(e@),
{
    if e.len() >= 1 && all_digits_exec(e) {
        return true;
    }
    if e.len() >= 2 && (e[0] == '+' || e[0] == '-') {
        let rest = &e[1..e.len()];
        assert(rest@ =~= e@.drop_first());
        return all_digits_exec(rest);
    }
    false
}

fn is_number_exec(t: &[char]) -> (r: bool)
    ensures
        r == is_number(t@),
{
    let mut i: usize = 0;
    while i < t.len()
        invariant
            i <= t@.len(),
            exponent_marker_from(t@, 0) == exponent_marker_from(t@, i as int),
        decreases t@.len() - i,
    {
        if t[i] == 'e' || t[i] == 'E' {
            let m = &t[0..i];
            let e = &t[i + 1..t.len()];
            assert(m@ =~= t@.take(i as int));
            assert(e@ =~= t@.skip(i + 1));
            return is_mantissa_exec(m) && is_exponent_exec(e);
        }
        i = i + 1;
    }
    is_mantissa_exec(t)
}

fn is_float_body_exec(t: &[char]) -> (r: bool)
    ensures
        r == is_float_body(t@),
{
    same_word_any_case_exec(t, "inf") || same_word_any_case_exec(t, "infinity")
        || same_word_any_case_exec(t, "nan") || is_number_exec(t)
}

/// Whether and why `str::parse::<f64>` refuses `s`, by the grammar that it documents.
pub fn check_float(s: &[char]) -> (r: Option<FloatError>)
    ensures
        r == float_refusal(s@),
{
    if s.len() == 0 {
        return Some(FloatError::Empty);
    }
    let ok = if s[0] == '+' || s[0] == '-' {
        let rest = &s[1..s.len()];
        assert(rest@ =~= s@.drop_first());
        is_float_body_exec(rest)
    } else {
        is_float_body_exec(s)
    };
    if ok {
        None
    } else {
        Some(FloatError::Invalid)
    }
}

pub open spec fn digit_char(d: int) -> char {
    if d == 0 {
        '0'
    } else if d == 1 {
        '1'
    } else if d == 2 {
        '2'
    } else if d == 3 {
        '3'
    } else if d == 4 {
        '4'
    } else if d == 5 {
        '5'
    } else if d == 6 {
        '6'
    } else if d == 7 {
        '7'
    } else if d == 8 {
        '8'
    } else {
        '9'
    }
}

/// The decimal digits of `n`, as `Display` writes an unsigned integer.
pub open spec fn decimal(n: nat) -> Seq<char>
    decreases n,
{
    if n < 10 {
        seq![digit_char(n as int)]
    } else {
        decimal(n / 10).push(digit_char((n % 10) as int))
    }
}

fn digit_char_exec(d: u128) -> (r: char)
    requires
        d < 10,
    ensures
        r == digit_char(d as int),
{
    if d == 0 {
        '0'
    } else if d == 1 {
        '1'
    } else if d == 2 {
        '2'
    } else if d == 3 {
        '3'
    } else if d == 4 {
        '4'
    } else if d == 5 {
        '5'
    } else if d == 6 {
        '6'
    } else if d == 7 {
        '7'
    } else if d == 8 {
        '8'
    } else {
        '9'
    }
}

/// The decimal digits of `n`.
pub fn decimal_chars(n: u128) -> (r: Vec<char>)
    ensures
        r@ == decimal(n as nat),
    decreases n,
{
    if n < 10 {
        let mut v = Vec::new();
        v.push(digit_char_exec(n));
        assert(v@ =~= seq![digit_char(n as int)]);
        v
    } else {
        let mut v = decimal_chars(n / 10);
        v.push(digit_char_exec(n % 10));
        v
    }
}

/// The number of bytes that UTF-8 takes for `c`, as `char::len_utf8` documents it.
pub open spec fn utf8_width(c: char) -> nat {
    if (c as int) < 0x80 {
        1
    } else if (c as int) < 0x800 {
        2
    } else if (c as int) < 0x10000 {
        3
    } else {
        4
    }
}

/// The number of bytes that UTF-8 takes for `s` (what `str::len` gives).
pub open spec fn utf8_len(s: Seq<char>) -> nat
    decreases s.len(),
{
    if s.len() == 0 {
        0
    } else {
        utf8_len(s.drop_last()) + utf8_width(s.last())
    }
}

/// `s` without its first `n` bytes, if a char starts there (`None` where slicing a `str`
/// at byte `n` panics).
pub open spec fn skip_bytes(s: Seq<char>, n: int) -> Option<Seq<char>>
    decreases s.len(),
{
    if n == 0 {
        Some(s)
    } else if n < 0 || s.len() == 0 {
        None
    } else {
        skip_bytes(s.drop_first(), n - utf8_width(s[0]))
    }
}

/// The first `n` bytes of `s`, if a char starts there (`None` where slicing a `str` up to
/// byte `n` panics).
pub open spec fn take_bytes(s: Seq<char>, n: int) -> Option<Seq<char>>
    decreases s.len(),
{
    if n == 0 {
        Some(Seq::empty())
    } else if n < 0 || s.len() == 0 {
        None
    } else {
        match take_bytes(s.drop_first(), n - utf8_width(s[0])) {
            Some(t) => Some(seq![s[0]] + t),
            None => None,
        }
    }
}

fn utf8_width_exec(c: char) -> (r: u128)
    ensures
        r == utf8_width(c),
{
    let v = c as u32;
    if v < 0x80 {
        1
    } else if v < 0x800 {
        2
    } else if v < 0x10000 {
        3
    } else {
        4
    }
}

/// The number of bytes that UTF-8 takes for `s`.
pub fn byte_len(s: &[char]) -> (r: u128)
    ensures
        r == utf8_len(s@),
{
    let mut acc: u128 = 0;
    let mut i: usize = 0;
    while i < s.len()
        invariant
            i <= s@.len(),
            acc == utf8_len(s@.take(i as int)),
            acc <= 4 * i,
        decreases s@.len() - i,
    {
        assert(s@.take(i + 1).drop_last() =~= s@.take(i as int));
        acc = acc + utf8_width_exec(s[i]);
        i = i + 1;
    }
    assert(s@.take(s@.len() as int) =~= s@);
    acc
}

/// `s` without its first `n` bytes, or `None` if no char of `s` starts at byte `n`.
pub fn skip_byte_prefix(s: &[char], n: u128) -> (r: Option<&[char]>)
    ensures
        r matches Some(t) ==> skip_bytes(s@, n as int) == Some(t@),
        r is None ==> skip_bytes(s@, n as int) is None,
{
    let mut i: usize = 0;
    let mut left: u128 = n;
    assert(s@.skip(0) =~= s@);
    while i < s.len() && left > 0
        invariant
            i <= s@.len(),
            left <= n,
            skip_bytes(s@, n as int) == skip_bytes(s@.skip(i as int), left as int),
        decreases s@.len() - i,
    {
        assert(s@.skip(i as int).drop_first() =~= s@.skip(i + 1));
        let w = utf8_width_exec(s[i]);
        if w > left {
            assert(skip_bytes(s@.skip(i + 1), left - w) is None);
            return None;
        }
        left = left - w;
        i = i + 1;
    }
    if left > 0 {
        return None;
    }
    let t = &s[i..s.len()];
    assert(t@ =~= s@.skip(i as int));
    Some(t)
}


/// The first `n` bytes of `s`, or `None` if no char of `s` starts at byte `n`.
pub fn take_byte_prefix(s: &[char], n: u128) -> (r: Option<&[char]>)
    ensures
        r matches Some(t) ==> take_bytes(s@, n as int) == Some(t@),
        r is None ==> take_bytes(s@, n as int) is None,
{
    let mut i: usize = 0;
    let mut left: u128 = n;
    assert(s@.skip(0) =~= s@);
    while i < s.len() && left > 0
        invariant
            i <= s@.len(),
            left <= n,
            take_bytes(s@, n as int) == (match take_bytes(s@.skip(i as int), left as int) {
                Some(t) => Some(s@.take(i as int) + t),
                None => None,
            }),
        decreases s@.len() - i,
    {
        let ghost rest = s@.skip(i as int);
        assert(rest.drop_first() =~= s@.skip(i + 1));
        let w = utf8_width_exec(s[i]);
        if w > left {
            assert(take_bytes(s@.skip(i + 1), left - w) is None);
            return None;
        }
        proof {
            match take_bytes(s@.skip(i + 1), (left - w) as int) {
                Some(t) => {
                    assert(s@.take(i as int) + (seq![s@[i as int]] + t) =~= s@.take(i + 1) + t);
                },
                None => {},
            }
        }
        left = left - w;
        i = i + 1;
    }
    if left > 0 {
        return None;
    }
    let t = &s[0..i];
    assert(s@.take(i as int) + Seq::<char>::empty() =~= t@);
    Some(t)
}

} // verus!
