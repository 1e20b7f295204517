//! Parsing, formatting and checked arithmetic of process addresses and offsets.
use crate::text::{
    is_ws, starts_with, starts_with_chars, string_of, trim, trim_end, trim_start, trimmed_chars,
};
use vstd::arithmetic::div_mod::lemma_breakdown;
use vstd::arithmetic::power::pow;
use vstd::prelude::*;

verus! {

/// Why an address, an offset or an address computation was refused.
#[derive(Debug, Clone, Copy, PartialEq, Eq)]
pub enum AddressError {
    /// Nothing is left to parse (the text is empty or blank, or no digit follows a prefix).
    Empty,
    /// A character is not a digit of the radix, or a sign stands alone.
    InvalidDigit,
    /// The digits denote a number that the parser's integer type cannot hold.
    Overflow,
    /// The number was parsed but does not fit the requested type.
    OutOfRange,
    /// An address plus an offset exceeds `u64::MAX`.
    AddressOverflow,
    /// An address minus an offset is below zero.
    AddressUnderflow,
}

/// Value of a digit character in radix 36 (`0-9`, `a-z`, `A-Z`); 36 for any other character.
pub open spec fn digit_of(c: char) -> nat {
    if '0' <= c && c <= '9' {
        (c as int - '0' as int) as nat
    } else if 'a' <= c && c <= 'z' {
        (c as int - 'a' as int + 10) as nat
    } else if 'A' <= c && c <= 'Z' {
        (c as int - 'A' as int + 10) as nat
    } else {
        36
    }
}

/// Every character of `s` is a digit of `radix`.
pub open spec fn all_digits(s: Seq<char>, radix: nat) -> bool {
    forall|i: int| 0 <= i < s.len() ==> digit_of(#[trigger] s[i]) < radix
}

/// The number that the digit string `s` denotes in `radix`, most significant digit first.
pub open spec fn digits_value(s: Seq<char>, radix: nat) -> nat
    decreases s.len(),
{
    if s.len() == 0 {
        0
    } else {
        digits_value(s.drop_last(), radix) * radix + digit_of(s.last())
    }
}

/// Outcome of reading the digit string `d` in `radix` into an integer type whose
/// largest value is `bound`, as `from_str_radix` does after any sign.
pub open spec fn digits_result(d: Seq<char>, radix: nat, bound: nat) -> Result<nat, AddressError> {
    if d.len() == 0 {
        Err(AddressError::Empty)
    } else if !all_digits(d, radix) {
        Err(AddressError::InvalidDigit)
    } else if digits_value(d, radix) > bound {
        Err(AddressError::Overflow)
    } else {
        Ok(digits_value(d, radix))
    }
}

/// `from_str_radix` of an unsigned integer type whose largest value is `bound`:
/// one optional `+`, then digits.
pub open spec fn unsigned_result(s: Seq<char>, radix: nat, bound: nat) -> Result<nat, AddressError> {
    if s.len() == 0 {
        Err(AddressError::Empty)
    } else if s.len() == 1 && (s[0] == '+' || s[0] == '-') {
        Err(AddressError::InvalidDigit)
    } else if s[0] == '+' {
        digits_result(s.drop_first(), radix, bound)
    } else {
        digits_result(s, radix, bound)
    }
}

/// `from_str_radix` of `i128`: one optional `+` or `-`, then digits.
pub open spec fn signed_result(s: Seq<char>, radix: nat) -> Result<int, AddressError> {
    if s.len() == 0 {
        Err(AddressError::Empty)
    } else if s.len() == 1 && (s[0] == '+' || s[0] == '-') {
        Err(AddressError::InvalidDigit)
    } else if s[0] == '-' {
        match digits_result(s.drop_first(), radix, i128::MAX as nat + 1) {
            Ok(v) => Ok(-(v as int)),
            Err(e) => Err(e),
        }
    } else {
        let d = if s[0] == '+' {
            s.drop_first()
        } else {
            s
        };
        match digits_result(d, radix, i128::MAX as nat) {
            Ok(v) => Ok(v as int),
            Err(e) => Err(e),
        }
    }
}

/// `t` begins with `0x` or `0X`.
pub open spec fn has_hex_prefix(t: Seq<char>) -> bool {
    starts_with(t, seq!['0', 'x']) || starts_with(t, seq!['0', 'X'])
}

/// The address text `value` read into an unsigned type whose largest value is `bound`:
/// surrounding whitespace is ignored, a `0x`/`0X` prefix selects hexadecimal, decimal otherwise.
pub open spec fn address_result(value: Seq<char>, bound: nat) -> Result<nat, AddressError> {
    let t = trim(value);
    if t.len() == 0 {
        Err(AddressError::Empty)
    } else if has_hex_prefix(t) {
        unsigned_result(t.skip(2), 16, bound)
    } else {
        unsigned_result(t, 10, bound)
    }
}

/// What `parse_u64` returns for `value`.
pub open spec fn parse_u64_spec(value: Seq<char>) -> Result<u64, AddressError> {
    match address_result(value, u64::MAX as nat) {
        Ok(v) => Ok(v as u64),
        Err(e) => Err(e),
    }
}

/// What `parse_u128_as_u64` returns for `value`: the text is read as a `u128`,
/// which then has to fit in a `u64`.
pub open spec fn parse_u128_as_u64_spec(value: Seq<char>) -> Result<u64, AddressError> {
    match address_result(value, u128::MAX as nat) {
        Ok(v) => if v <= u64::MAX {
            Ok(v as u64)
        } else {
            Err(AddressError::OutOfRange)
        },
        Err(e) => Err(e),
    }
}

/// Sign and remaining text of a trimmed offset: a leading `-` makes it negative,
/// otherwise one leading `+` is dropped.
pub open spec fn offset_sign(t: Seq<char>) -> (bool, Seq<char>) {
    if t.len() > 0 && t[0] == '-' {
        (true, t.drop_first())
    } else if t.len() > 0 && t[0] == '+' {
        (false, t.drop_first())
    } else {
        (false, t)
    }
}

/// What `parse_i64` returns for `value`: an optional sign, then a magnitude read as
/// an `i128` (hexadecimal after `0x`/`0X`), negated for a `-`, which has to fit an `i64`.
pub open spec fn parse_i64_spec(value: Seq<char>) -> Result<i64, AddressError> {
    let t = trim(value);
    if t.len() == 0 {
        Err(AddressError::Empty)
    } else {
        let (negative, unsigned) = offset_sign(t);
        let magnitude = if has_hex_prefix(unsigned) {
            signed_result(unsigned.skip(2), 16)
        } else {
            signed_result(unsigned, 10)
        };
        match magnitude {
            Ok(m) => {
                let signed = if negative {
                    -m
                } else {
                    m
                };
                if i64::MIN <= signed <= i64::MAX {
                    Ok(signed as i64)
                } else {
                    Err(AddressError::OutOfRange)
                }
            },
            Err(e) => Err(e),
        }
    }
}

/// Upper-case hexadecimal digit for `d < 16`.
pub open spec fn hex_char(d: nat) -> char {
    if d < 10 {
        ((d + '0' as nat) as u32) as char
    } else {
        ((d - 10 + 'A' as nat) as u32) as char
    }
}

/// The lowest `n` hexadecimal digits of `a`, most significant first.
pub open spec fn hex_fixed(a: nat, n: nat) -> Seq<char>
    decreases n,
{
    if n == 0 {
        Seq::empty()
    } else {
        hex_fixed(a / 16, (n - 1) as nat).push(hex_char(a % 16))
    }
}

/// `0x` followed by the sixteen upper-case hexadecimal digits of `address`.
pub open spec fn address_text(address: u64) -> Seq<char> {
    seq!['0', 'x'] + hex_fixed(address as nat, 16)
}

fn digit_of_char(c: char) -> (res: u32)
    ensures
        res == digit_of(c),
{
    if '0' <= c && c <= '9' {
        (c as u32) - ('0' as u32)
    } else if 'a' <= c && c <= 'z' {
        (c as u32) - ('a' as u32) + 10
    } else if 'A' <= c && c <= 'Z' {
        (c as u32) - ('A' as u32) + 10
    } else {
        36
    }
}

proof fn lemma_digits_take_step(d: Seq<char>, i: int, radix: nat)
    requires
        0 <= i < d.len(),
    ensures
        digits_value(d.take(i + 1), radix) == digits_value(d.take(i), radix) * radix + digit_of(
            d[i],
        ),
{
    assert(d.take(i + 1).drop_last() =~= d.take(i));
}

proof fn lemma_digits_monotone(d: Seq<char>, i: int, radix: nat)
    requires
        0 <= i <= d.len(),
        radix >= 1,
    ensures
        digits_value(d.take(i), radix) <= digits_value(d, radix),
    decreases d.len(),
{
    if i == d.len() {
        assert(d.take(i) =~= d);
    } else {
        let p = d.drop_last();
        assert(p.take(i) =~= d.take(i));
        lemma_digits_monotone(p, i, radix);
        let v = digits_value(p, radix);
        assert(v * radix >= v) by (nonlinear_arith)
            requires
                radix >= 1,
                v >= 0,
        ;
    }
}

/// Reads the digit string `d` in `radix` into an integer no larger than `bound`.
fn parse_digits(d: &[char], radix: u32, bound: u128) -> (res: Result<u128, AddressError>)
    requires
        2 <= radix <= 36,
    ensures
        match digits_result(d@, radix as nat, bound as nat) {
            Ok(v) => res == Ok::<u128, AddressError>(v as u128),
            Err(e) => res == Err::<u128, AddressError>(e),
        },
{
    if d.len() == 0 {
        return Err(AddressError::Empty);
    }
    let mut i: usize = 0;
    while i < d.len()
        invariant
            i <= d@.len(),
            forall|j: int| 0 <= j < i ==> digit_of(#[trigger] d@[j]) < radix,
        decreases d@.len() - i,
    {
        if digit_of_char(d[i]) >= radix {
            assert(!all_digits(d@, radix as nat)) by {
                assert(digit_of(d@[i as int]) >= radix);
            }
            return Err(AddressError::InvalidDigit);
        }
        i = i + 1;
    }
    assert(all_digits(d@, radix as nat));
    let mut acc: u128 = 0;
    let mut k: usize = 0;
    while k < d.len()
        invariant
            2 <= radix <= 36,
            k <= d@.len(),
            all_digits(d@, radix as nat),
            acc as nat == digits_value(d@.take(k as int), radix as nat),
            acc <= bound,
        decreases d@.len() - k,
    {
        let dv = digit_of_char(d[k]);
        proof {
            lemma_digits_take_step(d@, k as int, radix as nat);
            assert(digit_of(d@[k as int]) < radix);
        }
        if (dv as u128) > bound || acc > (bound - (dv as u128)) / (radix as u128) {
            let ghost next = digits_value(d@.take(k + 1), radix as nat);
            assert(next > bound) by (nonlinear_arith)
                requires
                    next == acc * radix + dv,
                    dv > bound || acc > (bound - dv) / (radix as int),
                    radix >= 2,
                    acc >= 0,
                    dv >= 0,
            ;
            proof {
                lemma_digits_monotone(d@, k + 1, radix as nat);
            }
            return Err(AddressError::Overflow);
        }
        assert(acc * radix + dv <= bound) by (nonlinear_arith)
            requires
                acc <= (bound - dv) / (radix as int),
                dv <= bound,
                radix >= 2,
                acc >= 0,
        ;
        acc = acc * (radix as u128) + (dv as u128);
        k = k + 1;
    }
    assert(d@.take(d@.len() as int) =~= d@);
    Ok(acc)
}

/// `from_str_radix` of an unsigned type whose largest value is `bound`.
pub(crate) fn parse_unsigned(s: &[char], radix: u32, bound: u128) -> (res: Result<u128, AddressError>)
    requires
        2 <= radix <= 36,
    ensures
        match unsigned_result(s@, radix as nat, bound as nat) {
            Ok(v) => res == Ok::<u128, AddressError>(v as u128),
            Err(e) => res == Err::<u128, AddressError>(e),
        },
{
    if s.len() == 0 {
        return Err(AddressError::Empty);
    }
    if s.len() == 1 && (s[0] == '+' || s[0] == '-') {
        return Err(AddressError::InvalidDigit);
    }
    if s[0] == '+' {
        let rest = crate::text::slice_chars(s, 1, s.len());
        assert(rest@ =~= s@.drop_first());
        parse_digits(rest.as_slice(), radix, bound)
    } else {
        parse_digits(s, radix, bound)
    }
}

/// `from_str_radix` of `i128`.
pub(crate) fn parse_signed(s: &[char], radix: u32) -> (res: Result<i128, AddressError>)
    requires
        2 <= radix <= 36,
    ensures
        match signed_result(s@, radix as nat) {
            Ok(v) => res == Ok::<i128, AddressError>(v as i128),
            Err(e) => res == Err::<i128, AddressError>(e),
        },
        res matches Ok(v) ==> signed_result(s@, radix as nat) == Ok::<int, AddressError>(v as int),
{
    if s.len() == 0 {
        return Err(AddressError::Empty);
    }
    if s.len() == 1 && (s[0] == '+' || s[0] == '-') {
        return Err(AddressError::InvalidDigit);
    }
    if s[0] == '-' {
        let rest = crate::text::slice_chars(s, 1, s.len());
        assert(rest@ =~= s@.drop_first());
        match parse_digits(rest.as_slice(), radix, (i128::MAX as u128) + 1) {
            Ok(v) => {
                if v == (i128::MAX as u128) + 1 {
                    Ok(i128::MIN)
                } else {
                    Ok(-(v as i128))
                }
            },
            Err(e) => Err(e),
        }
    } else {
        let d = if s[0] == '+' {
            let rest = crate::text::slice_chars(s, 1, s.len());
            assert(rest@ =~= s@.drop_first());
            rest
        } else {
            crate::text::slice_chars(s, 0, s.len())
        };
        assert(s@.subrange(0, s@.len() as int) =~= s@);
        match parse_digits(d.as_slice(), radix, i128::MAX as u128) {
            Ok(v) => Ok(v as i128),
            Err(e) => Err(e),
        }
    }
}

/// Splits the trimmed text `t` into its digits and radix: hexadecimal after `0x`/`0X`.
fn split_radix(t: &[char]) -> (res: (Vec<char>, u32))
    ensures
        has_hex_prefix(t@) ==> res.0@ == t@.skip(2) && res.1 == 16,
        !has_hex_prefix(t@) ==> res.0@ == t@ && res.1 == 10,
{
    let lower = ['0', 'x'];
    let upper = ['0', 'X'];
    let a = starts_with_chars(t, &lower);
    let b = starts_with_chars(t, &upper);
    assert(lower@ == seq!['0', 'x']);
    assert(upper@ == seq!['0', 'X']);
    if a || b {
        let rest = crate::text::slice_chars(t, 2, t.len());
        assert(rest@ =~= t@.skip(2));
        (rest, 16)
    } else {
        let all = crate::text::slice_chars(t, 0, t.len());
        assert(all@ =~= t@);
        (all, 10)
    }
}

/// Reads an address: decimal, or hexadecimal after `0x`/`0X`, surrounded by any whitespace.
pub fn parse_u64(value: &str) -> (res: Result<u64, AddressError>)
    ensures
        res == parse_u64_spec(value@),
{
    let t = trimmed_chars(value);
    if t.len() == 0 {
        return Err(AddressError::Empty);
    }
    let (digits, radix) = split_radix(t.as_slice());
    match parse_unsigned(digits.as_slice(), radix, u64::MAX as u128) {
        Ok(v) => Ok(v as u64),
        Err(e) => Err(e),
    }
}

/// Reads an address as a `u128` and requires it to fit in a `u64`.
pub fn parse_u128_as_u64(value: &str) -> (res: Result<u64, AddressError>)
    ensures
        res == parse_u128_as_u64_spec(value@),
{
    let t = trimmed_chars(value);
    if t.len() == 0 {
        return Err(AddressError::Empty);
    }
    let (digits, radix) = split_radix(t.as_slice());
    match parse_unsigned(digits.as_slice(), radix, u128::MAX) {
        Ok(v) => if v <= u64::MAX as u128 {
            Ok(v as u64)
        } else {
            Err(AddressError::OutOfRange)
        },
        Err(e) => Err(e),
    }
}

/// Reads a signed offset: an optional sign, then decimal or `0x`/`0X` hexadecimal digits.
pub fn parse_i64(value: &str) -> (res: Result<i64, AddressError>)
    ensures
        res == parse_i64_spec(value@),
{
    let t = trimmed_chars(value);
    if t.len() == 0 {
        return Err(AddressError::Empty);
    }
    let negative = t[0] == '-';
    let unsigned = if negative || t[0] == '+' {
        crate::text::slice_chars(t.as_slice(), 1, t.len())
    } else {
        crate::text::slice_chars(t.as_slice(), 0, t.len())
    };
    assert(t@.subrange(0, t@.len() as int) =~= t@);
    assert(t@.subrange(1, t@.len() as int) =~= t@.drop_first());
    assert(offset_sign(t@) == (negative, unsigned@));
    let (digits, radix) = split_radix(unsigned.as_slice());
    let magnitude = parse_signed(digits.as_slice(), radix);
    match magnitude {
        Ok(m) => {
            if negative && m == i128::MIN {
                return Err(AddressError::OutOfRange);
            }
            let signed: i128 = if negative {
                -m
            } else {
                m
            };
            if (i64::MIN as i128) <= signed && signed <= (i64::MAX as i128) {
                Ok(signed as i64)
            } else {
                Err(AddressError::OutOfRange)
            }
        },
        Err(e) => Err(e),
    }
}

fn hex_digit(d: u64) -> (res: char)
    requires
        d < 16,
    ensures
        res == hex_char(d as nat),
{
    if d < 10 {
        ((d as u8) + ('0' as u8)) as char
    } else {
        ((d as u8) - 10 + ('A' as u8)) as char
    }
}

fn hex_fixed_chars(a: u64, n: u32) -> (res: Vec<char>)
    ensures
        res@ == hex_fixed(a as nat, n as nat),
    decreases n,
{
    if n == 0 {
        Vec::new()
    } else {
        let mut v = hex_fixed_chars(a / 16, n - 1);
        v.push(hex_digit(a % 16));
        v
    }
}

/// `0x` and the sixteen upper-case hexadecimal digits of `address`.
pub fn format_address(address: u64) -> (res: String)
    ensures
        res@ == address_text(address),
{
    let mut v: Vec<char> = Vec::new();
    v.push('0');
    v.push('x');
    let digits = hex_fixed_chars(address, 16);
    let mut i: usize = 0;
    while i < digits.len()
        invariant
            i <= digits@.len(),
            v@ == seq!['0', 'x'] + digits@.take(i as int),
        decreases digits@.len() - i,
    {
        v.push(digits[i]);
        assert(digits@.take(i + 1) =~= digits@.take(i as int).push(digits@[i as int]));
        i = i + 1;
    }
    assert(digits@.take(digits@.len() as int) =~= digits@);
    string_of(v.as_slice())
}

/// `address + offset`, refused when it exceeds `u64::MAX`.
pub fn checked_add(address: u64, offset: u64) -> (res: Result<u64, AddressError>)
    ensures
        address + offset <= u64::MAX ==> res == Ok::<u64, AddressError>((address + offset) as u64),
        address + offset > u64::MAX ==> res == Err::<u64, AddressError>(AddressError::AddressOverflow),
{
    match address.checked_add(offset) {
        Some(v) => Ok(v),
        None => Err(AddressError::AddressOverflow),
    }
}

/// `address + offset` for a signed offset, refused when it leaves the `u64` range.
pub fn checked_add_signed(address: u64, offset: i64) -> (res: Result<u64, AddressError>)
    ensures
        0 <= address + offset <= u64::MAX ==> res == Ok::<u64, AddressError>(
            (address + offset) as u64,
        ),
        address + offset > u64::MAX ==> res == Err::<u64, AddressError>(AddressError::AddressOverflow),
        address + offset < 0 ==> res == Err::<u64, AddressError>(AddressError::AddressUnderflow),
{
    if offset >= 0 {
        match address.checked_add(offset as u64) {
            Some(v) => Ok(v),
            None => Err(AddressError::AddressOverflow),
        }
    } else {
        let magnitude: u64 = if offset == i64::MIN {
            0x8000_0000_0000_0000u64
        } else {
            (-offset) as u64
        };
        match address.checked_sub(magnitude) {
            Some(v) => Ok(v),
            None => Err(AddressError::AddressUnderflow),
        }
    }
}

proof fn lemma_hex_char_digit(d: nat)
    requires
        d < 16,
    ensures
        digit_of(hex_char(d)) == d,
        !is_ws(hex_char(d)),
        hex_char(d) != '+',
        hex_char(d) != '-',
{
}

proof fn lemma_hex_fixed_value(a: nat, n: nat)
    ensures
        hex_fixed(a, n).len() == n,
        all_digits(hex_fixed(a, n), 16),
        digits_value(hex_fixed(a, n), 16) == (a as int) % pow(16, n),
        forall|i: int| 0 <= i < n ==> !is_ws(#[trigger] hex_fixed(a, n)[i]),
    decreases n,
{
    reveal(pow);
    if n == 0 {
        assert(pow(16, 0) == 1);
    } else {
        let p = hex_fixed(a / 16, (n - 1) as nat);
        lemma_hex_fixed_value(a / 16, (n - 1) as nat);
        lemma_hex_char_digit(a % 16);
        let s = hex_fixed(a, n);
        assert(s.drop_last() =~= p);
        assert(pow(16, n) == 16 * pow(16, (n - 1) as nat));
        vstd::arithmetic::power::lemma_pow_positive(16, (n - 1) as nat);
        lemma_breakdown(a as int, 16, pow(16, (n - 1) as nat));
        assert forall|i: int| 0 <= i < n implies !is_ws(#[trigger] s[i]) by {
            if i < n - 1 {
                assert(s[i] == p[i]);
            }
        }
        assert forall|i: int| 0 <= i < s.len() implies digit_of(#[trigger] s[i]) < 16 by {
            if i < n - 1 {
                assert(s[i] == p[i]);
            }
        }
    }
}

/// Formatting an address and reading the text back gives the address again,
/// whether it is read as a `u64` or through a `u128`.
pub proof fn lemma_format_then_parse(address: u64)
    ensures
        parse_u64_spec(address_text(address)) == Ok::<u64, AddressError>(address),
        parse_u128_as_u64_spec(address_text(address)) == Ok::<u64, AddressError>(address),
{
    let digits = hex_fixed(address as nat, 16);
    lemma_hex_fixed_value(address as nat, 16);
    assert(pow(16, 16) == 0x1_0000_0000_0000_0000) by {
        reveal_with_fuel(pow, 17);
    }
    let t = address_text(address);
    assert(t.len() == 18);
    assert(!is_ws(t[0]) && !is_ws(t[17])) by {
        assert(t[17] == digits[15]);
    }
    assert(trim_start(t) == t);
    assert(trim_end(t) == t);
    assert(starts_with(t, seq!['0', 'x'])) by {
        assert(t.subrange(0, 2) =~= seq!['0', 'x']);
    }
    assert(t.skip(2) =~= digits);
    assert(digits[0] != '+' && digits[0] != '-') by {
        assert(digit_of(digits[0]) < 16);
    }
}

} // verus!
