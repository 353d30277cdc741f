//! Whole numbers as decimal text: reading and writing.

use vstd::prelude::*;

verus! {

/// Above every magnitude that an `i32` can have.
const PAST_I32: u128 = 0x8000_0001;

/// The highest count at which digits can be read.
pub(crate) const MAX_CAP: u128 = 0x100_0000_0000_0000_0000_0000_0000_0000;

/// Whether `c` is one of the ten decimal digits `0` to `9`.
pub open spec fn is_digit(c: char) -> bool {
    0x30 <= c as u32 <= 0x39
}

/// The number that the digit `c` stands for.
pub open spec fn digit_value(c: char) -> nat {
    (c as u32 - 0x30) as nat
}

/// The digit that stands for `d`, a number below ten.
pub open spec fn digit_char(d: nat) -> char {
    (0x30 + d) as char
}

/// Whether `s` holds decimal digits only.
pub open spec fn all_digits(s: Seq<char>) -> bool {
    forall|i: int| 0 <= i < s.len() ==> is_digit(#[trigger] s[i])
}

/// The number that the digits `s` write in base ten; leading zeros count
/// for nothing and no digits give zero.
pub open spec fn digits_value(s: Seq<char>) -> nat
    decreases s.len(),
{
    if s.len() == 0 {
        0
    } else {
        digits_value(s.drop_last()) * 10 + digit_value(s.last())
    }
}

/// `s` without the sign that may lead it.
pub open spec fn unsigned_part(s: Seq<char>) -> Seq<char> {
    if s.len() > 0 && (s.first() == '-' || s.first() == '+') {
        s.drop_first()
    } else {
        s
    }
}

/// Whether `s` is an optional sign, `+` or `-`, and then one digit or more.
pub open spec fn is_integer_text(s: Seq<char>) -> bool {
    unsigned_part(s).len() > 0 && all_digits(unsigned_part(s))
}

/// The integer that `s` writes, where `s` is integer text.
pub open spec fn integer_value(s: Seq<char>) -> int {
    if s.len() > 0 && s.first() == '-' {
        -(digits_value(unsigned_part(s)) as int)
    } else {
        digits_value(unsigned_part(s)) as int
    }
}

/// The `i32` that `s` writes: `s` is integer text and its value fits.
pub open spec fn i32_of(s: Seq<char>) -> Option<i32> {
    if is_integer_text(s) && i32::MIN <= integer_value(s) <= i32::MAX {
        Some(integer_value(s) as i32)
    } else {
        None
    }
}

/// The digits of `n` in base ten, the highest first, without leading zeros.
pub open spec fn decimal_digits(n: nat) -> Seq<char>
    decreases n,
{
    if n < 10 {
        seq![digit_char(n)]
    } else {
        decimal_digits(n / 10).push(digit_char(n % 10))
    }
}

/// `n` as decimal text: a minus sign where it is negative, then its digits.
pub open spec fn decimal(n: int) -> Seq<char> {
    if n < 0 {
        seq!['-'] + decimal_digits((-n) as nat)
    } else {
        decimal_digits(n as nat)
    }
}

/// Ten to the power `k`.
pub open spec fn ten_to(k: nat) -> int
    decreases k,
{
    if k == 0 {
        1
    } else {
        10 * ten_to((k - 1) as nat)
    }
}

/// `v`, or the one of `-cap` and `cap` that it lies beyond.
pub open spec fn held_within(v: int, cap: nat) -> int {
    if v > cap {
        cap as int
    } else if v < -cap {
        -cap
    } else {
        v
    }
}

/// The smaller of `n` and `cap`.
pub open spec fn at_most(n: nat, cap: nat) -> nat {
    if n < cap {
        n
    } else {
        cap
    }
}

/// The digits of `n` are digits, at least one, and write `n`.
pub proof fn lemma_decimal_digits_write(n: nat)
    ensures
        decimal_digits(n).len() > 0,
        all_digits(decimal_digits(n)),
        digits_value(decimal_digits(n)) == n,
    decreases n,
{
    if n < 10 {
        assert(seq![digit_char(n)].drop_last() =~= Seq::<char>::empty());
        assert(digits_value(Seq::<char>::empty()) == 0);
    } else {
        lemma_decimal_digits_write(n / 10);
        assert(decimal_digits(n).drop_last() =~= decimal_digits(n / 10));
    }
}

/// What is written of an `i32` reads back as the same number.
pub proof fn lemma_decimal_reads_back(n: i32)
    ensures
        i32_of(decimal(n as int)) == Some(n),
{
    if n < 0 {
        let digits = decimal_digits((-n) as nat);
        lemma_decimal_digits_write((-n) as nat);
        assert(unsigned_part(decimal(n as int)) =~= digits);
    } else {
        let digits = decimal_digits(n as nat);
        lemma_decimal_digits_write(n as nat);
        assert(is_digit(digits.first()));
        assert(unsigned_part(decimal(n as int)) =~= digits);
    }
}

/// The highest scale at which a price is computed from the full quotient.
pub(crate) const DIRECT_SCALE: u8 = 28;

/// A power of ten is at least one.
pub(crate) proof fn lemma_ten_to_positive(k: nat)
    ensures
        ten_to(k) >= 1,
    decreases k,
{
    if k > 0 {
        lemma_ten_to_positive((k - 1) as nat);
    }
}

/// A higher power of ten is not the smaller one.
pub(crate) proof fn lemma_ten_to_grows(j: nat, k: nat)
    requires
        j <= k,
    ensures
        ten_to(j) <= ten_to(k),
    decreases k,
{
    if j < k {
        lemma_ten_to_grows(j, (k - 1) as nat);
        lemma_ten_to_positive((k - 1) as nat);
    }
}

/// Up to the power 28, a power of ten is at most `10^28`.
pub(crate) proof fn lemma_ten_to_at_most(k: nat)
    requires
        k <= 28,
    ensures
        ten_to(k) <= 10_000_000_000_000_000_000_000_000_000,
    decreases 28 - k,
{
    if k == 28 {
        reveal_with_fuel(ten_to, 29);
    } else {
        lemma_ten_to_at_most(k + 1);
    }
}

/// From the power 29 on, a power of ten is at least `10^29`.
pub(crate) proof fn lemma_ten_to_at_least(k: nat)
    requires
        k >= 29,
    ensures
        ten_to(k) >= 100_000_000_000_000_000_000_000_000_000,
    decreases k,
{
    if k == 29 {
        reveal_with_fuel(ten_to, 30);
    } else {
        lemma_ten_to_at_least((k - 1) as nat);
    }
}

/// Tests a character for a decimal digit.
pub fn is_digit_char(c: char) -> (digit: bool)
    ensures
        digit == is_digit(c),
{
    let u: u32 = c as u32;
    0x30 <= u && u <= 0x39
}

/// Reads the digits `chars[from..to]`, stopping the count at `cap`.
///
/// Gives `None` where a character of the range is no digit, and else the
/// smaller of the range's value and `cap`.
pub(crate) fn read_digits(chars: &Vec<char>, from: usize, to: usize, cap: u128) -> (value: Option<
    u128,
>)
    requires
        from <= to <= chars@.len(),
        cap <= MAX_CAP,
    ensures
        value is Some <==> all_digits(chars@.subrange(from as int, to as int)),
        value is Some ==> value->0 == at_most(
            digits_value(chars@.subrange(from as int, to as int)),
            cap as nat,
        ),
{
    let mut total: u128 = 0;
    let mut at: usize = from;
    while at < to
        invariant
            from <= at <= to <= chars@.len(),
            cap <= MAX_CAP,
            all_digits(chars@.subrange(from as int, at as int)),
            total <= cap,
            total == at_most(digits_value(chars@.subrange(from as int, at as int)), cap as nat),
        decreases to - at,
    {
        let c = chars[at];
        if !is_digit_char(c) {
            assert(chars@.subrange(from as int, to as int)[at - from] == c);
            return None;
        }
        assert(chars@.subrange(from as int, at + 1).drop_last() =~= chars@.subrange(
            from as int,
            at as int,
        ));
        let digit: u128 = (c as u32 - 0x30) as u128;
        let next: u128 = total * 10 + digit;
        total = if next < cap {
            next
        } else {
            cap
        };
        at += 1;
    }
    Some(total)
}

/// Reads `chars[from..to]` as a whole number with an optional sign,
/// stopping the count at `cap` on either side of zero.
///
/// Gives `None` where the range is no integer text, and else its value, or
/// the one of `-cap` and `cap` that the value lies beyond.
pub(crate) fn read_integer(chars: &Vec<char>, from: usize, to: usize, cap: u128) -> (value: Option<
    i128,
>)
    requires
        from <= to <= chars@.len(),
        cap <= MAX_CAP,
    ensures
        value is Some <==> is_integer_text(chars@.subrange(from as int, to as int)),
        value is Some ==> value->0 == held_within(
            integer_value(chars@.subrange(from as int, to as int)),
            cap as nat,
        ),
{
    let ghost s = chars@.subrange(from as int, to as int);
    if from == to {
        return None;
    }
    let first = chars[from];
    assert(s.first() == first);
    let start: usize = if first == '-' || first == '+' {
        from + 1
    } else {
        from
    };
    assert(unsigned_part(s) =~= chars@.subrange(start as int, to as int));
    if start == to {
        return None;
    }
    match read_digits(chars, start, to, cap) {
        None => None,
        Some(magnitude) => {
            if first == '-' {
                Some(-(magnitude as i128))
            } else {
                Some(magnitude as i128)
            }
        },
    }
}

/// Reads `chars[from..to]` as an `i32`.
pub(crate) fn read_i32(chars: &Vec<char>, from: usize, to: usize) -> (value: Option<i32>)
    requires
        from <= to <= chars@.len(),
    ensures
        value == i32_of(chars@.subrange(from as int, to as int)),
{
    match read_integer(chars, from, to, PAST_I32) {
        Some(value) => {
            if -0x8000_0000 <= value && value <= 0x7fff_ffff {
                Some(value as i32)
            } else {
                None
            }
        },
        None => None,
    }
}

/// Reads `text` as an `i32`: an optional sign, then decimal digits, and
/// nothing else.
pub fn parse_i32(text: &str) -> (value: Option<i32>)
    ensures
        value == i32_of(text@),
{
    let chars = crate::text::chars_of(text);
    assert(chars@.subrange(0, chars@.len() as int) =~= chars@);
    read_i32(&chars, 0, chars.len())
}

/// Ten to the power `scale`.
pub(crate) fn power_of_ten(scale: u8) -> (power: u128)
    requires
        scale <= DIRECT_SCALE,
    ensures
        power == ten_to(scale as nat),
        1 <= power <= 10_000_000_000_000_000_000_000_000_000,
{
    let mut power: u128 = 1;
    let mut k: u8 = 0;
    while k < scale
        invariant
            k <= scale <= DIRECT_SCALE,
            power == ten_to(k as nat),
        decreases scale - k,
    {
        proof {
            lemma_ten_to_at_most((k + 1) as nat);
        }
        power = power * 10;
        k += 1;
    }
    proof {
        lemma_ten_to_at_most(scale as nat);
        lemma_ten_to_positive(scale as nat);
    }
    power
}

/// The text of the digit that stands for `d`.
fn digit_text(d: u128) -> (text: &'static str)
    requires
        d < 10,
    ensures
        text@ == seq![digit_char(d as nat)],
{
    proof {
        reveal_strlit("0");
        reveal_strlit("1");
        reveal_strlit("2");
        reveal_strlit("3");
        reveal_strlit("4");
        reveal_strlit("5");
        reveal_strlit("6");
        reveal_strlit("7");
        reveal_strlit("8");
        reveal_strlit("9");
    }
    let text = match d {
        0 => "0",
        1 => "1",
        2 => "2",
        3 => "3",
        4 => "4",
        5 => "5",
        6 => "6",
        7 => "7",
        8 => "8",
        _ => "9",
    };
    assert(text@ =~= seq![digit_char(d as nat)]);
    text
}

/// Writes the digits of `n` at the end of `out`.
pub fn append_digits(out: &mut String, n: u128)
    ensures
        final(out)@ == old(out)@ + decimal_digits(n as nat),
    decreases n,
{
    if n >= 10 {
        append_digits(out, n / 10);
    }
    out.append(digit_text(n % 10));
    assert(final(out)@ =~= old(out)@ + decimal_digits(n as nat));
}

/// Writes `n` as decimal text.
pub fn render_integer(n: i128) -> (text: String)
    ensures
        text@ == decimal(n as int),
{
    let mut text = String::new();
    if n < 0 {
        proof {
            reveal_strlit("-");
        }
        text.append("-");
        append_digits(&mut text, (-(n + 1)) as u128 + 1);
        assert(text@ =~= decimal(n as int));
    } else {
        append_digits(&mut text, n as u128);
        assert(text@ =~= decimal(n as int));
    }
    text
}

} // verus!
