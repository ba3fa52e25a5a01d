//! Text building blocks: decimal and hexadecimal rendering of integers and
//! string assembly, each stated over `Seq<char>`.

use vstd::prelude::*;
use vstd::string::*;

verus! {

/// The ASCII digit for a value below 16, lower-case letters past nine.
pub open spec fn digit_char(d: nat) -> char {
    if d == 0 { '0' }
    else if d == 1 { '1' }
    else if d == 2 { '2' }
    else if d == 3 { '3' }
    else if d == 4 { '4' }
    else if d == 5 { '5' }
    else if d == 6 { '6' }
    else if d == 7 { '7' }
    else if d == 8 { '8' }
    else if d == 9 { '9' }
    else if d == 10 { 'a' }
    else if d == 11 { 'b' }
    else if d == 12 { 'c' }
    else if d == 13 { 'd' }
    else if d == 14 { 'e' }
    else { 'f' }
}

/// Positional rendering of `n` in `base`, most significant digit first,
/// without leading zeros ("0" for zero).
pub open spec fn in_base(n: nat, base: nat) -> Seq<char>
    recommends
        2 <= base <= 16,
    decreases n,
{
    if n < base || base < 2 {
        seq![digit_char(n)]
    } else {
        proof {
            assert(n / base < n) by (nonlinear_arith)
                requires
                    n >= base,
                    base >= 2,
            ;
        }
        in_base(n / base, base).push(digit_char(n % base))
    }
}

/// What `{}` prints for an unsigned integer.
pub open spec fn decimal(n: nat) -> Seq<char> {
    in_base(n, 10)
}

/// What `{:x}` prints for an unsigned integer.
pub open spec fn hex_lower(n: nat) -> Seq<char> {
    in_base(n, 16)
}

fn digit(d: u64) -> (c: char)
    requires
        d < 16,
    ensures
        c == digit_char(d as nat),
{
    if d == 0 { '0' }
    else if d == 1 { '1' }
    else if d == 2 { '2' }
    else if d == 3 { '3' }
    else if d == 4 { '4' }
    else if d == 5 { '5' }
    else if d == 6 { '6' }
    else if d == 7 { '7' }
    else if d == 8 { '8' }
    else if d == 9 { '9' }
    else if d == 10 { 'a' }
    else if d == 11 { 'b' }
    else if d == 12 { 'c' }
    else if d == 13 { 'd' }
    else if d == 14 { 'e' }
    else { 'f' }
}

/// Appends one character: `String::push`.
#[verifier::external_body]
pub(crate) fn push_char(s: &mut String, c: char)
    ensures
        final(s)@ == old(s)@.push(c),
{
    s.push(c)
}

/// Appends the rendering of `n` in `base` to `s`.
pub fn push_in_base(s: &mut String, n: u64, base: u64)
    requires
        2 <= base <= 16,
    ensures
        final(s)@ == old(s)@ + in_base(n as nat, base as nat),
    decreases n,
{
    if n >= base {
        assert(n / base < n) by (nonlinear_arith)
            requires
                n >= base,
                base >= 2,
        ;
        push_in_base(s, n / base, base);
        push_char(s, digit(n % base));
    } else {
        push_char(s, digit(n));
    }
}

/// Appends `n` in decimal.
pub fn push_decimal(s: &mut String, n: u64)
    ensures
        final(s)@ == old(s)@ + decimal(n as nat),
{
    push_in_base(s, n, 10);
}

/// Appends `n` in lower-case hexadecimal.
pub fn push_hex(s: &mut String, n: u64)
    ensures
        final(s)@ == old(s)@ + hex_lower(n as nat),
{
    push_in_base(s, n, 16);
}

/// Appends a string slice.
pub fn push_str(s: &mut String, t: &str)
    ensures
        final(s)@ == old(s)@ + t@,
{
    s.append(t);
}

} // verus!

verus! {

pub open spec fn is_decimal_digit(c: char) -> bool {
    '0' <= c && c <= '9'
}

/// The value of a run of decimal digits, most significant first.
pub open spec fn digits_value(s: Seq<char>) -> nat
    decreases s.len(),
{
    if s.len() == 0 {
        0
    } else {
        digits_value(s.drop_last()) * 10 + ((s.last() as int - '0' as int) as nat)
    }
}

/// The digits of an unsigned integer literal, without its optional `+`.
pub open spec fn unsigned_digits(s: Seq<char>) -> Seq<char> {
    if s.len() > 0 && s[0] == '+' {
        s.drop_first()
    } else {
        s
    }
}

/// What `str::parse::<u64>` accepts and yields: an optional `+` followed by
/// one or more ASCII digits whose value fits in a `u64`.
pub open spec fn parse_u64_spec(s: Seq<char>) -> Option<u64> {
    let d = unsigned_digits(s);
    if d.len() > 0 && (forall|i: int| 0 <= i < d.len() ==> is_decimal_digit(#[trigger] d[i]))
        && digits_value(d) <= u64::MAX {
        Some(digits_value(d) as u64)
    } else {
        None
    }
}

/// The value of a digit character in bases up to 16 (lower-case letters
/// past nine).
pub open spec fn digit_value(c: char) -> int {
    if '0' <= c && c <= '9' {
        c as int - '0' as int
    } else if 'a' <= c && c <= 'f' {
        c as int - 'a' as int + 10
    } else {
        -1
    }
}

/// The value of a run of digits in `base`, most significant first.
pub open spec fn base_value(s: Seq<char>, base: nat) -> int
    decreases s.len(),
{
    if s.len() == 0 {
        0
    } else {
        base_value(s.drop_last(), base) * base + digit_value(s.last())
    }
}

proof fn lemma_digit_value_of_digit_char(d: nat)
    requires
        d < 16,
    ensures
        digit_value(digit_char(d)) == d,
        digit_char(d) != '+',
        (digit_char(d) == '0') <==> d == 0,
        d < 10 ==> is_decimal_digit(digit_char(d)),
{
}

/// `in_base` is positional notation: its digits, each below the base, read
/// back as `n` in that base, and it has no leading zero (zero is "0").
pub proof fn lemma_in_base_reads_back(n: nat, base: nat)
    requires
        2 <= base <= 16,
    ensures
        in_base(n, base).len() > 0,
        base_value(in_base(n, base), base) == n,
        forall|i: int|
            0 <= i < in_base(n, base).len() ==> 0 <= #[trigger] digit_value(in_base(n, base)[i])
                < base,
        n == 0 ==> in_base(n, base) == seq!['0'],
        n > 0 ==> in_base(n, base)[0] != '0',
    decreases n,
{
    let s = in_base(n, base);
    if n < base {
        lemma_digit_value_of_digit_char(n);
        assert(s == seq![digit_char(n)]);
        assert(s.drop_last() =~= Seq::<char>::empty());
        assert(base_value(s.drop_last(), base) == 0);
        assert(base_value(s, base) == 0 * base + digit_value(s.last()));
    } else {
        assert(n / base < n) by (nonlinear_arith)
            requires
                n >= base,
                base >= 2,
        ;
        assert(0 < n / base) by (nonlinear_arith)
            requires
                n >= base,
                base >= 2,
        ;
        lemma_in_base_reads_back(n / base, base);
        let p = in_base(n / base, base);
        lemma_digit_value_of_digit_char(n % base);
        assert(s == p.push(digit_char(n % base)));
        assert(s.drop_last() =~= p);
        assert(s[0] == p[0]);
        assert forall|i: int| 0 <= i < s.len() implies 0 <= #[trigger] digit_value(s[i]) < base by {
            if i < p.len() {
                assert(s[i] == p[i]);
            }
        }
        assert((n / base) * base + n % base == n) by (nonlinear_arith)
            requires
                base >= 2,
        ;
        assert(base_value(s, base) == base_value(p, base) * base + digit_value(s.last()));
        assert(digit_value(s.last()) == n % base);
        assert(base_value(p, base) == n / base);
        assert(base_value(p, base) * base == (n / base) * base);
    }
}

/// The decimal rendering of `n` is a run of decimal digits whose value is
/// `n`.
pub proof fn lemma_decimal_digits(n: nat)
    ensures
        decimal(n).len() > 0,
        forall|i: int| 0 <= i < decimal(n).len() ==> is_decimal_digit(#[trigger] decimal(n)[i]),
        digits_value(decimal(n)) == n,
    decreases n,
{
    let s = decimal(n);
    if n < 10 {
        lemma_digit_value_of_digit_char(n);
        assert(s == seq![digit_char(n)]);
        assert(s.drop_last() =~= Seq::<char>::empty());
        assert(digit_char(n) as int - '0' as int == n);
        assert(is_decimal_digit(s[0]));
        assert(digits_value(s) == digits_value(s.drop_last()) * 10 + ((s.last() as int - '0' as int) as nat));
    } else {
        assert(n / 10 < n);
        lemma_decimal_digits(n / 10);
        lemma_digit_value_of_digit_char(n % 10);
        let p = decimal(n / 10);
        assert(s == p.push(digit_char(n % 10)));
        assert(s.drop_last() =~= p);
        assert(digit_char(n % 10) as int - '0' as int == n % 10);
        assert(p.len() > 0);
        assert forall|i: int| 0 <= i < s.len() implies is_decimal_digit(#[trigger] s[i]) by {
            if i < p.len() {
                assert(s[i] == p[i]);
            }
        }
        assert((n / 10) * 10 + n % 10 == n) by (nonlinear_arith);
        assert(digits_value(s) == digits_value(p) * 10 + ((s.last() as int - '0' as int) as nat));
    }
}

/// Parsing what `{}` prints for a `u64` gives the number back, with or
/// without a leading `+`; a number past `u64::MAX` is refused.
pub proof fn lemma_decimal_parses_back(n: u64)
    ensures
        parse_u64_spec(decimal(n as nat)) == Some(n),
        parse_u64_spec(seq!['+'] + decimal(n as nat)) == Some(n),
{
    lemma_decimal_digits(n as nat);
    let d = decimal(n as nat);
    assert(is_decimal_digit(d[0]));
    assert(unsigned_digits(d) == d);
    assert((seq!['+'] + d).drop_first() =~= d);
}

/// A number too large for a `u64` is refused, however it is written.
pub proof fn lemma_too_large_is_refused(n: nat)
    requires
        n > u64::MAX,
    ensures
        parse_u64_spec(decimal(n)) is None,
{
    lemma_decimal_digits(n);
    let d = decimal(n);
    assert(is_decimal_digit(d[0]));
    assert(unsigned_digits(d) == d);
}

/// Text without digits, or with anything but digits after the optional
/// `+`, is refused.
pub proof fn lemma_parse_refuses_non_digits(s: Seq<char>, i: int)
    requires
        0 <= i < unsigned_digits(s).len(),
        !is_decimal_digit(unsigned_digits(s)[i]),
    ensures
        parse_u64_spec(s) is None,
{
}

proof fn lemma_digits_value_prefix_grows(s: Seq<char>, k: int)
    requires
        0 <= k <= s.len(),
        forall|i: int| 0 <= i < s.len() ==> is_decimal_digit(#[trigger] s[i]),
    ensures
        digits_value(s.take(k)) <= digits_value(s),
    decreases s.len() - k,
{
    if k < s.len() {
        lemma_digits_value_prefix_grows(s, k + 1);
        let t = s.take(k + 1);
        assert(t.drop_last() =~= s.take(k));
        assert(t.last() == s[k]);
    } else {
        assert(s.take(k) =~= s);
    }
}

/// Parses an unsigned decimal integer as `str::parse::<u64>` does.
pub fn parse_u64(s: &str) -> (res: Option<u64>)
    ensures
        res == parse_u64_spec(s@),
{
    let len = s.unicode_len();
    let mut start: usize = 0;
    if len > 0 && s.get_char(0) == '+' {
        start = 1;
    }
    let ghost d = unsigned_digits(s@);
    assert(d =~= s@.subrange(start as int, len as int));
    if start == len {
        return None;
    }
    let mut acc: u64 = 0;
    let mut i: usize = start;
    while i < len
        invariant
            start <= i <= len,
            len == s@.len(),
            d == s@.subrange(start as int, len as int),
            d == unsigned_digits(s@),
            forall|j: int| 0 <= j < i - start ==> is_decimal_digit(#[trigger] d[j]),
            acc == digits_value(d.take(i - start)),
        decreases len - i,
    {
        let c = s.get_char(i);
        if !('0' <= c && c <= '9') {
            assert(!is_decimal_digit(d[i - start]));
            return None;
        }
        let digit = (c as u32 - '0' as u32) as u64;
        let ghost prefix = d.take(i - start + 1);
        assert(prefix.drop_last() =~= d.take(i - start));
        assert(prefix.last() == c);
        match acc.checked_mul(10) {
            Some(m) => match m.checked_add(digit) {
                Some(v) => {
                    acc = v;
                },
                None => {
                    proof {
                        self::lemma_overflow_is_rejected(d, (i - start + 1) as int);
                    }
                    return None;
                },
            },
            None => {
                proof {
                    self::lemma_overflow_is_rejected(d, (i - start + 1) as int);
                }
                return None;
            },
        }
        i = i + 1;
    }
    assert(d.take(len - start) =~= d);
    Some(acc)
}

/// Once a prefix of the digits overflows, the whole literal is refused.
proof fn lemma_overflow_is_rejected(d: Seq<char>, k: int)
    requires
        0 < k <= d.len(),
        forall|j: int| 0 <= j < k - 1 ==> is_decimal_digit(#[trigger] d[j]),
        is_decimal_digit(d[k - 1]),
        digits_value(d.take(k)) > u64::MAX,
    ensures
        parse_u64_spec_digits_rejected(d),
{
    if forall|i: int| 0 <= i < d.len() ==> is_decimal_digit(#[trigger] d[i]) {
        lemma_digits_value_prefix_grows(d, k);
    }
}

pub open spec fn parse_u64_spec_digits_rejected(d: Seq<char>) -> bool {
    !(d.len() > 0 && (forall|i: int| 0 <= i < d.len() ==> is_decimal_digit(#[trigger] d[i]))
        && digits_value(d) <= u64::MAX)
}

} // verus!

verus! {

/// Character-wise equality of two string slices.
pub fn str_eq(a: &str, b: &str) -> (eq: bool)
    ensures
        eq == (a@ == b@),
{
    let n = a.unicode_len();
    if n != b.unicode_len() {
        return false;
    }
    let mut i: usize = 0;
    while i < n
        invariant
            n == a@.len(),
            n == b@.len(),
            i <= n,
            forall|j: int| 0 <= j < i ==> a@[j] == b@[j],
        decreases n - i,
    {
        if a.get_char(i) != b.get_char(i) {
            return false;
        }
        i = i + 1;
    }
    assert(a@ =~= b@);
    true
}

/// Equality of an optional string with a string slice.
pub fn opt_str_eq(a: &Option<String>, b: &str) -> (eq: bool)
    ensures
        eq == (a.deep_view() == Some(b@)),
{
    match a {
        Some(s) => str_eq(s.as_str(), b),
        None => false,
    }
}

} // verus!
