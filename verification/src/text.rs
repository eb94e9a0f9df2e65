//! Text helpers: decimal rendering of integers, digit checks and string building.

use vstd::prelude::*;
use vstd::string::*;

verus! {

/// The character of a decimal digit `d` (`0 <= d < 10`).
pub open spec fn digit_char(d: nat) -> char {
    (48 + d) as char
}

/// The canonical decimal rendering of `n`: no sign, no leading zeros ("0" for zero).
pub open spec fn decimal(n: nat) -> Seq<char>
    decreases n,
{
    if n < 10 {
        seq![digit_char(n)]
    } else {
        decimal(n / 10).push(digit_char(n % 10))
    }
}

/// `c` is an ASCII decimal digit.
pub open spec fn is_digit(c: char) -> bool {
    '0' <= c && c <= '9'
}

/// Every character of `s` is an ASCII decimal digit.
pub open spec fn all_digits(s: Seq<char>) -> bool {
    forall|i: int| 0 <= i < s.len() ==> is_digit(#[trigger] s[i])
}

/// `true` or `false`, as Rust writes a `bool`.
pub open spec fn bool_text(b: bool) -> Seq<char> {
    if b {
        "true"@
    } else {
        "false"@
    }
}

/// Ten to the power `k`.
pub open spec fn pow10(k: nat) -> nat
    decreases k,
{
    if k == 0 {
        1
    } else {
        10 * pow10((k - 1) as nat)
    }
}

/// Every character of a decimal rendering is a digit.
pub proof fn lemma_decimal_digits(n: nat)
    ensures
        all_digits(decimal(n)),
        decimal(n).len() >= 1,
    decreases n,
{
    if n >= 10 {
        lemma_decimal_digits(n / 10);
    }
}

/// A decimal rendering has `k` characters exactly when `10^(k-1) <= n < 10^k`
/// (for `k >= 1`); in particular its length grows with `n`.
pub proof fn lemma_decimal_len(n: nat, k: nat)
    requires
        k >= 1,
    ensures
        decimal(n).len() == k <==> ((k == 1 || pow10((k - 1) as nat) <= n) && n < pow10(k)),
    decreases n,
{
    if n < 10 {
        if k >= 2 {
            lemma_pow10_ge(k, 1);
            lemma_pow10_ge((k - 1) as nat, 1);
        }
        assert(pow10(1) == 10) by {
            reveal_with_fuel(pow10, 2);
        }
        if k == 1 {
        } else {
            assert(pow10((k - 1) as nat) >= 10);
        }
    } else {
        if k == 1 {
            assert(pow10(1) == 10) by {
                reveal_with_fuel(pow10, 2);
            }
            lemma_decimal_len(n / 10, 1);
        } else {
            lemma_decimal_len(n / 10, (k - 1) as nat);
            let km1 = (k - 1) as nat;
            assert(pow10(k) == 10 * pow10(km1));
            if km1 >= 1 {
                let km2 = (km1 - 1) as nat;
                assert(pow10(km1) == 10 * pow10(km2));
                assert((pow10(km2) <= n / 10) <==> (10 * pow10(km2) <= n)) by (nonlinear_arith)
                    requires
                        n >= 10,
                ;
            }
            assert((n / 10 < pow10(km1)) <==> (n < 10 * pow10(km1))) by (nonlinear_arith);
            if km1 == 1 {
                assert(pow10(1) == 10) by {
                    reveal_with_fuel(pow10, 2);
                }
            }
        }
    }
}

/// Powers of ten grow with the exponent.
pub proof fn lemma_pow10_ge(k: nat, j: nat)
    requires
        j <= k,
    ensures
        pow10(j) <= pow10(k),
        pow10(k) >= 1,
    decreases k,
{
    if k > 0 {
        lemma_pow10_ge((k - 1) as nat, if j == k { (k - 1) as nat } else { j });
        if j == k {
        }
    }
}

/// Appends one character to a string (`String::push`).
#[verifier::external_body]
pub(crate) fn push_char(s: &mut String, c: char)
    ensures
        final(s)@ == old(s)@.push(c),
{
    s.push(c);
}

/// Renders `n` in decimal, as `n.to_string()` does.
pub fn u64_to_decimal(n: u64) -> (res: String)
    ensures
        res@ == decimal(n as nat),
{
    // Collect the digits from the least significant one.
    let mut digits: Vec<char> = Vec::new();
    let c0: char = (48u8 + ((n % 10) as u8)) as char;
    digits.push(c0);
    let mut m: u64 = n / 10;
    proof {
        if n >= 10 {
            assert(decimal(n as nat) == decimal(m as nat) + digits@.reverse());
        } else {
            assert(decimal(n as nat) =~= digits@.reverse());
        }
    }
    while m > 0
        invariant
            m > 0 ==> decimal(n as nat) == decimal(m as nat) + digits@.reverse(),
            m == 0 ==> decimal(n as nat) == digits@.reverse(),
        decreases m,
    {
        let c: char = (48u8 + ((m % 10) as u8)) as char;
        let ghost old_digits = digits@;
        digits.push(c);
        proof {
            assert(digits@.reverse() =~= seq![c] + old_digits.reverse());
            if m < 10 {
                assert(decimal(m as nat) == seq![c]);
            } else {
                assert(decimal(m as nat) == decimal((m / 10) as nat).push(c));
                assert(decimal((m / 10) as nat).push(c) + old_digits.reverse() =~= decimal(
                    (m / 10) as nat,
                ) + (seq![c] + old_digits.reverse()));
            }
        }
        m = m / 10;
    }
    let mut res = String::new();
    let len = digits.len();
    let mut i: usize = len;
    while i > 0
        invariant
            i <= len,
            len == digits.len(),
            res@ =~= digits@.subrange(i as int, len as int).reverse(),
        decreases i,
    {
        i = i - 1;
        let c = digits[i];
        push_char(&mut res, c);
        proof {
            assert(digits@.subrange(i as int, len as int).reverse() =~= digits@.subrange(
                (i + 1) as int,
                len as int,
            ).reverse().push(c));
        }
    }
    assert(digits@.subrange(0, len as int) =~= digits@);
    res
}

/// Renders a `bool` as `b.to_string()` does.
pub fn bool_to_text(b: bool) -> (res: String)
    ensures
        res@ == bool_text(b),
{
    if b {
        String::from_str("true")
    } else {
        String::from_str("false")
    }
}

/// Whether every character of `s` is an ASCII digit.
pub fn str_all_digits(s: &str) -> (res: bool)
    ensures
        res == all_digits(s@),
{
    let n = s.unicode_len();
    let mut i: usize = 0;
    while i < n
        invariant
            n == s@.len(),
            i <= n,
            forall|j: int| 0 <= j < i ==> is_digit(#[trigger] s@[j]),
        decreases n - i,
    {
        let c = s.get_char(i);
        if !('0' <= c && c <= '9') {
            return false;
        }
        i = i + 1;
    }
    true
}

/// Whether `s` contains the character `c`.
pub fn str_contains_char(s: &str, c: char) -> (res: bool)
    ensures
        res == s@.contains(c),
{
    let n = s.unicode_len();
    let mut i: usize = 0;
    while i < n
        invariant
            n == s@.len(),
            i <= n,
            forall|j: int| 0 <= j < i ==> s@[j] != c,
        decreases n - i,
    {
        if s.get_char(i) == c {
            assert(s@[i as int] == c);
            return true;
        }
        i = i + 1;
    }
    false
}

/// The value of a string of decimal digits, most significant first ("" is zero).
pub open spec fn digits_value(s: Seq<char>) -> nat
    decreases s.len(),
{
    if s.len() == 0 {
        0
    } else {
        digits_value(s.drop_last()) * 10 + ((s.last() as nat) - 48) as nat
    }
}

/// Why a text is not an unsigned integer, as `core::num::IntErrorKind` names it.
#[derive(Debug, Clone, Copy, PartialEq, Eq, Structural)]
pub enum ParseIntFailure {
    /// The text is empty.
    Empty,
    /// The text holds a character that is not a digit (or is a sign alone).
    InvalidDigit,
    /// The number is larger than `u64::MAX`.
    PosOverflow,
}

impl ParseIntFailure {
    /// The message with which `core::num::ParseIntError` displays this failure.
    pub fn message(&self) -> (res: &'static str)
        ensures
            res@ == match *self {
                ParseIntFailure::Empty => "cannot parse integer from empty string"@,
                ParseIntFailure::InvalidDigit => "invalid digit found in string"@,
                ParseIntFailure::PosOverflow => "number too large to fit in target type"@,
            },
    {
        match self {
            ParseIntFailure::Empty => "cannot parse integer from empty string",
            ParseIntFailure::InvalidDigit => "invalid digit found in string",
            ParseIntFailure::PosOverflow => "number too large to fit in target type",
        }
    }
}

/// The digits of an unsigned number: the text without one leading `+`.
pub open spec fn unsigned_digits(s: Seq<char>) -> Seq<char> {
    if s.len() > 0 && s[0] == '+' {
        s.drop_first()
    } else {
        s
    }
}

/// Reading the digits `d` from the left stops at position `i`: the character there
/// is not a digit, or the digits up to and including it exceed `u64::MAX`.
pub open spec fn stops_at(d: Seq<char>, i: int) -> bool {
    !is_digit(d[i]) || digits_value(d.take(i + 1)) > u64::MAX
}

/// The first position where reading the digits `d` stops, where there is one.
pub open spec fn first_stop(d: Seq<char>) -> int {
    choose|k: int|
        0 <= k < d.len() && stops_at(d, k) && forall|j: int| 0 <= j < k ==> !stops_at(d, j)
}

/// What `s.parse::<u64>()` gives: the value of the digits after an optional `+`
/// when they are all digits and the value fits; otherwise the failure at the first
/// position where reading stops (an empty text, or a sign alone, fails at once).
pub open spec fn parsed_u64(s: Seq<char>) -> Result<u64, ParseIntFailure> {
    let d = unsigned_digits(s);
    if s.len() == 0 {
        Err(ParseIntFailure::Empty)
    } else if d.len() == 0 {
        Err(ParseIntFailure::InvalidDigit)
    } else if forall|i: int| 0 <= i < d.len() ==> !stops_at(d, i) {
        Ok(digits_value(d) as u64)
    } else {
        let k = first_stop(d);
        if is_digit(d[k]) {
            Err(ParseIntFailure::PosOverflow)
        } else {
            Err(ParseIntFailure::InvalidDigit)
        }
    }
}

/// Parses an unsigned decimal integer as `s.parse::<u64>()` does.
pub fn parse_u64(s: &str) -> (res: Result<u64, ParseIntFailure>)
    ensures
        res == parsed_u64(s@),
{
    let n = s.unicode_len();
    if n == 0 {
        return Err(ParseIntFailure::Empty);
    }
    let start: usize = if s.get_char(0) == '+' {
        1
    } else {
        0
    };
    let ghost d = unsigned_digits(s@);
    assert(d =~= s@.subrange(start as int, n as int));
    if start == n {
        return Err(ParseIntFailure::InvalidDigit);
    }
    let mut acc: u64 = 0;
    let mut i: usize = start;
    while i < n
        invariant
            d == s@.subrange(start as int, n as int),
            d == unsigned_digits(s@),
            d.len() > 0,
            n == s@.len(),
            start <= i <= n,
            acc == digits_value(d.take(i - start)),
            forall|j: int| 0 <= j < i - start ==> !stops_at(d, j),
        decreases n - i,
    {
        let c = s.get_char(i);
        let ghost k = i - start;
        assert(d[k] == c);
        if !('0' <= c && c <= '9') {
            proof {
                assert(stops_at(d, k));
                lemma_first_stop(d, k);
            }
            return Err(ParseIntFailure::InvalidDigit);
        }
        let digit: u64 = (c as u32 - 48) as u64;
        assert(d.take(k + 1).drop_last() =~= d.take(k));
        assert(digits_value(d.take(k + 1)) == acc * 10 + digit);
        let next = match acc.checked_mul(10) {
            Some(m) => m.checked_add(digit),
            None => None,
        };
        match next {
            Some(v) => {
                acc = v;
            },
            None => {
                proof {
                    assert(stops_at(d, k));
                    lemma_first_stop(d, k);
                }
                return Err(ParseIntFailure::PosOverflow);
            },
        }
        i = i + 1;
    }
    assert(d.take(n - start) =~= d);
    Ok(acc)
}

/// A position where reading stops, with no stop before it, is the one that
/// [`parsed_u64`] chooses.
proof fn lemma_first_stop(d: Seq<char>, k: int)
    requires
        0 <= k < d.len(),
        stops_at(d, k),
        forall|j: int| 0 <= j < k ==> !stops_at(d, j),
    ensures
        !(forall|i: int| 0 <= i < d.len() ==> !stops_at(d, i)),
        first_stop(d) == k,
{
    let m = first_stop(d);
    if m < k {
        assert(!stops_at(d, m));
    } else if m > k {
        assert(!stops_at(d, k));
    }
}

/// The value of the decimal rendering of `n` is `n`.
pub proof fn lemma_digits_value_decimal(n: nat)
    ensures
        digits_value(decimal(n)) == n,
    decreases n,
{
    let d = n % 10;
    assert(digit_char(d) as nat == 48 + d);
    if n < 10 {
        assert(decimal(n).drop_last() =~= Seq::<char>::empty());
        assert(digits_value(Seq::<char>::empty()) == 0);
        assert(decimal(n).last() == digit_char(d));
    } else {
        lemma_digits_value_decimal(n / 10);
        assert(decimal(n).drop_last() =~= decimal(n / 10));
        assert(decimal(n).last() == digit_char(d));
        assert((n / 10) * 10 + d == n);
    }
}

/// A prefix of a digit string is worth no more than the whole string.
pub proof fn lemma_prefix_value_le(d: Seq<char>, k: int)
    requires
        all_digits(d),
        0 <= k <= d.len(),
    ensures
        digits_value(d.take(k)) <= digits_value(d),
    decreases d.len(),
{
    if k == d.len() {
        assert(d.take(k) =~= d);
    } else {
        let init = d.drop_last();
        assert(all_digits(init)) by {
            assert forall|i: int| 0 <= i < init.len() implies is_digit(#[trigger] init[i]) by {
                assert(init[i] == d[i]);
            }
        }
        lemma_prefix_value_le(init, k);
        assert(init.take(k) =~= d.take(k));
        assert(is_digit(d[d.len() - 1]));
    }
}

/// Reading the decimal rendering of a number gives the number back: for every `v`,
/// `parse_u64` of `u64_to_decimal(v)` is `Ok(v)`.
pub proof fn law_decimal_round_trip(v: u64)
    ensures
        parsed_u64(decimal(v as nat)) == Ok::<u64, ParseIntFailure>(v),
{
    let d = decimal(v as nat);
    lemma_decimal_digits(v as nat);
    lemma_digits_value_decimal(v as nat);
    assert(is_digit(d[0]));
    assert(unsigned_digits(d) == d);
    assert forall|i: int| 0 <= i < d.len() implies !stops_at(d, i) by {
        lemma_prefix_value_le(d, i + 1);
    }
}

} // verus!
