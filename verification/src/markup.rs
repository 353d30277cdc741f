//! Markups: decimal fractions by which a card's value is raised, read from
//! decimal text with or without an exponent.

use crate::number::{
    all_digits, append_digits, at_most, decimal_digits, digits_value, held_within, integer_value,
    is_digit, is_integer_text, lemma_decimal_digits_write, lemma_ten_to_grows, power_of_ten,
    read_digits, read_integer, ten_to, unsigned_part,
};
use crate::text::{chars_of, find_char, first_index_of, lemma_first_index_past};
use vstd::prelude::*;

verus! {

/// A markup, `0.10` for ten percent, held exactly as the decimal fraction
/// `units / 10^scale`.
#[derive(Clone, Copy, Debug, PartialEq, Eq, Structural)]
pub struct Markup {
    /// The number of units of `10^-scale`.
    pub units: i64,
    /// The number of digits behind the decimal point.
    pub scale: u8,
}

/// Where the exponent mark, `e` or `E`, first stands in `s`; the length of
/// `s` where it has none.
pub open spec fn exponent_at(s: Seq<char>) -> int {
    if first_index_of(s, 'e') <= first_index_of(s, 'E') {
        first_index_of(s, 'e')
    } else {
        first_index_of(s, 'E')
    }
}

/// What stands before the exponent mark of `s`: all of `s` where it has
/// none.
pub open spec fn mantissa_text(s: Seq<char>) -> Seq<char> {
    s.take(exponent_at(s))
}

/// What stands behind the exponent mark of `s`.
pub open spec fn exponent_text(s: Seq<char>) -> Seq<char> {
    if exponent_at(s) < s.len() {
        s.skip(exponent_at(s) + 1)
    } else {
        Seq::empty()
    }
}

/// The digits of decimal text `m` that stand before its decimal point.
pub open spec fn whole_digits(m: Seq<char>) -> Seq<char> {
    unsigned_part(m).take(first_index_of(unsigned_part(m), '.'))
}

/// The digits of decimal text `m` that stand behind its decimal point.
pub open spec fn fraction_digits(m: Seq<char>) -> Seq<char> {
    let body = unsigned_part(m);
    let point = first_index_of(body, '.');
    if point < body.len() {
        body.skip(point + 1)
    } else {
        Seq::empty()
    }
}

/// Whether `m` is an optional sign, digits, and optionally a decimal point
/// with digits behind it: at least one digit in all.
pub open spec fn is_decimal_text(m: Seq<char>) -> bool {
    &&& all_digits(whole_digits(m))
    &&& all_digits(fraction_digits(m))
    &&& whole_digits(m).len() + fraction_digits(m).len() > 0
}

/// Whether `s` is decimal text, optionally followed by an exponent: the
/// mark `e` or `E`, an optional sign, and one digit or more.
pub open spec fn is_markup_text(s: Seq<char>) -> bool {
    &&& is_decimal_text(mantissa_text(s))
    &&& exponent_at(s) < s.len() ==> is_integer_text(exponent_text(s))
}

/// Whether decimal text `m` starts with a minus sign.
pub open spec fn is_negative(m: Seq<char>) -> bool {
    m.len() > 0 && m.first() == '-'
}

/// The digits of decimal text `m`, read as one whole number.
pub open spec fn magnitude_of(m: Seq<char>) -> nat {
    digits_value(whole_digits(m) + fraction_digits(m))
}

/// The power of ten that markup text `s` raises its digits by: none where
/// it has no exponent.
pub open spec fn exponent_of(s: Seq<char>) -> int {
    if exponent_at(s) < s.len() {
        integer_value(exponent_text(s))
    } else {
        0
    }
}

/// `magnitude` with its sign.
pub open spec fn signed(negative: bool, magnitude: int) -> int {
    if negative {
        -magnitude
    } else {
        magnitude
    }
}

/// The markup of `units` at `scale`, where the units fit an `i64` and the
/// scale is at most 255.
pub open spec fn markup_within(units: int, scale: int) -> Option<Markup> {
    if i64::MIN <= units <= i64::MAX && 0 <= scale <= u8::MAX {
        Some(Markup { units: units as i64, scale: scale as u8 })
    } else {
        None
    }
}

/// The markup with the digits `magnitude`, of which `fraction_len` stand
/// behind the decimal point, raised by the power of ten `exponent`; nothing
/// where its units do not fit an `i64` or its scale is above 255.
///
/// The value is `magnitude * 10^(exponent - fraction_len)`, negated where
/// `negative`. With a power above zero the units hold the product and the
/// scale is zero; else the units are the digits and the scale is the power
/// taken from zero.
pub open spec fn composed(
    negative: bool,
    magnitude: nat,
    fraction_len: nat,
    exponent: int,
) -> Option<Markup> {
    let shift = exponent - fraction_len;
    let whole = if shift > 0 {
        magnitude * ten_to(shift as nat)
    } else {
        magnitude as int
    };
    let scale = if shift < 0 {
        -shift
    } else {
        0
    };
    markup_within(signed(negative, whole), scale)
}

/// The markup that `s` writes: `s` is markup text, and a markup holds its
/// value.
pub open spec fn markup_of(s: Seq<char>) -> Option<Markup> {
    if is_markup_text(s) {
        composed(
            is_negative(mantissa_text(s)),
            magnitude_of(mantissa_text(s)),
            fraction_digits(mantissa_text(s)).len(),
            exponent_of(s),
        )
    } else {
        None
    }
}

/// The magnitude of a markup's units.
pub open spec fn units_magnitude(markup: Markup) -> nat {
    (if markup.units < 0 {
        -markup.units
    } else {
        markup.units as int
    }) as nat
}

/// `k` zeros.
pub open spec fn zeros(k: nat) -> Seq<char> {
    Seq::new(k, |i: int| '0')
}

/// `markup` as decimal text: a minus sign where it is negative, at least
/// one digit before the decimal point and, where the scale is not zero, the
/// point with exactly `scale` digits behind it.
pub open spec fn decimal_text(markup: Markup) -> Seq<char> {
    let sign = if markup.units < 0 {
        seq!['-']
    } else {
        Seq::empty()
    };
    let digits = decimal_digits(units_magnitude(markup));
    if markup.scale == 0 {
        sign + digits
    } else if digits.len() <= markup.scale {
        sign + seq!['0', '.'] + zeros((markup.scale - digits.len()) as nat) + digits
    } else {
        sign + digits.take(digits.len() - markup.scale) + seq!['.'] + digits.skip(
            digits.len() - markup.scale,
        )
    }
}

/// Two texts joined hold digits only where each of them does.
proof fn lemma_all_digits_of_both(a: Seq<char>, b: Seq<char>)
    ensures
        all_digits(a + b) <==> all_digits(a) && all_digits(b),
{
    if all_digits(a + b) {
        assert forall|i: int| 0 <= i < a.len() implies is_digit(#[trigger] a[i]) by {
            assert((a + b)[i] == a[i]);
        }
        assert forall|i: int| 0 <= i < b.len() implies is_digit(#[trigger] b[i]) by {
            assert((a + b)[a.len() + i] == b[i]);
        }
    }
}

/// Zeros before digits count for nothing.
proof fn lemma_leading_zeros(k: nat, digits: Seq<char>)
    ensures
        digits_value(zeros(k) + digits) == digits_value(digits),
        all_digits(zeros(k)),
    decreases digits.len(), k,
{
    if digits.len() > 0 {
        lemma_leading_zeros(k, digits.drop_last());
        assert((zeros(k) + digits).drop_last() =~= zeros(k) + digits.drop_last());
    } else if k > 0 {
        lemma_leading_zeros((k - 1) as nat, digits);
        assert((zeros(k) + digits).drop_last() =~= zeros((k - 1) as nat) + digits);
    } else {
        assert(zeros(k) + digits =~= Seq::<char>::empty());
    }
}

/// What is written of a markup is decimal text with the markup's sign, its
/// units as digits, and as many of them behind the point as its scale.
proof fn lemma_decimal_text_is_decimal(markup: Markup)
    ensures
        is_decimal_text(decimal_text(markup)),
        is_negative(decimal_text(markup)) == (markup.units < 0),
        magnitude_of(decimal_text(markup)) == units_magnitude(markup),
        fraction_digits(decimal_text(markup)).len() == markup.scale,
{
    let magnitude = units_magnitude(markup);
    let digits = decimal_digits(magnitude);
    let scale = markup.scale as int;
    let sign = if markup.units < 0 {
        seq!['-']
    } else {
        Seq::<char>::empty()
    };
    let text = decimal_text(markup);
    lemma_decimal_digits_write(magnitude);
    assert(is_digit(digits.first()));
    let body = if scale == 0 {
        digits
    } else if digits.len() <= scale {
        seq!['0', '.'] + zeros((scale - digits.len()) as nat) + digits
    } else {
        digits.take(digits.len() - scale) + seq!['.'] + digits.skip(digits.len() - scale)
    };
    assert(text =~= sign + body);
    assert(is_digit(body.first()));
    assert(unsigned_part(text) =~= body);
    assert(text.len() > 0 && (text.first() == '-' <==> markup.units < 0));
    if scale == 0 {
        lemma_first_index_past(digits, Seq::empty(), '.');
        assert(digits + Seq::<char>::empty() =~= digits);
        assert(whole_digits(text) =~= digits);
        assert(fraction_digits(text) =~= Seq::<char>::empty());
        assert(whole_digits(text) + fraction_digits(text) =~= digits);
    } else if digits.len() <= scale {
        let fraction = zeros((scale - digits.len()) as nat) + digits;
        lemma_first_index_past(seq!['0'], seq!['.'] + fraction, '.');
        assert(seq!['0'] + (seq!['.'] + fraction) =~= body);
        assert(whole_digits(text) =~= seq!['0']);
        assert(fraction_digits(text) =~= fraction);
        lemma_leading_zeros((scale - digits.len()) as nat, digits);
        lemma_all_digits_of_both(zeros((scale - digits.len()) as nat), digits);
        assert(whole_digits(text) + fraction_digits(text) =~= zeros(
            (scale - digits.len() + 1) as nat,
        ) + digits);
        lemma_leading_zeros((scale - digits.len() + 1) as nat, digits);
    } else {
        let whole = digits.take(digits.len() - scale);
        let fraction = digits.skip(digits.len() - scale);
        assert(whole + fraction =~= digits);
        lemma_all_digits_of_both(whole, fraction);
        lemma_first_index_past(whole, seq!['.'] + fraction, '.');
        assert(whole + (seq!['.'] + fraction) =~= body);
        assert(whole_digits(text) =~= whole);
        assert(fraction_digits(text) =~= fraction);
    }
}

/// What is written of a markup holds a sign, a point and digits only.
proof fn lemma_decimal_text_chars(markup: Markup)
    ensures
        forall|i: int|
            0 <= i < decimal_text(markup).len() ==> {
                let c = #[trigger] decimal_text(markup)[i];
                c == '-' || c == '.' || is_digit(c)
            },
{
    let digits = decimal_digits(units_magnitude(markup));
    lemma_decimal_digits_write(units_magnitude(markup));
    assert forall|i: int| 0 <= i < digits.len() implies is_digit(#[trigger] digits[i]) by {}
}

/// What is written of a markup has no exponent.
proof fn lemma_decimal_text_is_plain(markup: Markup)
    ensures
        exponent_at(decimal_text(markup)) == decimal_text(markup).len(),
{
    let text = decimal_text(markup);
    lemma_decimal_text_chars(markup);
    assert forall|i: int| 0 <= i < text.len() implies text[i] != 'e' && text[i] != 'E' by {
        let c = text[i];
        assert(c == '-' || c == '.' || is_digit(c));
    }
    lemma_first_index_past(text, Seq::empty(), 'e');
    lemma_first_index_past(text, Seq::empty(), 'E');
    assert(text + Seq::<char>::empty() =~= text);
}

/// What is written of a markup reads back as the same markup.
pub proof fn lemma_decimal_text_reads_back(markup: Markup)
    ensures
        markup_of(decimal_text(markup)) == Some(markup),
{
    let text = decimal_text(markup);
    lemma_decimal_text_is_plain(markup);
    assert(mantissa_text(text) =~= text);
    lemma_decimal_text_is_decimal(markup);
}

/// Above every magnitude that the units of a markup can have.
const PAST_UNITS: u128 = 0x8000_0000_0000_0001;

/// Above every exponent that matters: beyond it, in either direction, no
/// digits but zeros give a markup.
const PAST_EXPONENT: u128 = 0x10_0000_0000_0000_0000_0000_0000;

/// What was read of decimal text.
struct Mantissa {
    /// Whether it starts with a minus sign.
    negative: bool,
    /// Its digits as one whole number, the count stopped above the units of
    /// a markup.
    magnitude: u128,
    /// The number of its digits behind the decimal point.
    fraction_len: usize,
}

/// Reads `chars[..end]` as decimal text.
fn read_decimal(chars: &Vec<char>, end: usize) -> (read: Option<Mantissa>)
    requires
        end <= chars@.len(),
    ensures
        read is Some <==> is_decimal_text(chars@.take(end as int)),
        read is Some ==> {
            &&& read->0.negative == is_negative(chars@.take(end as int))
            &&& read->0.magnitude == at_most(
                magnitude_of(chars@.take(end as int)),
                PAST_UNITS as nat,
            )
            &&& read->0.fraction_len == fraction_digits(chars@.take(end as int)).len()
        },
{
    let ghost s = chars@.take(end as int);
    assert(chars@.subrange(0, end as int) =~= s);
    let negative = end > 0 && chars[0] == '-';
    let start: usize = if end > 0 && (chars[0] == '-' || chars[0] == '+') {
        1
    } else {
        0
    };
    assert(unsigned_part(s) =~= chars@.subrange(start as int, end as int));
    let point = find_char(chars, start, end, '.');
    let fraction_from: usize = if point < end {
        point + 1
    } else {
        end
    };
    let ghost whole = whole_digits(s);
    let ghost fraction = fraction_digits(s);
    assert(whole =~= chars@.subrange(start as int, point as int));
    assert(fraction =~= chars@.subrange(fraction_from as int, end as int));
    let mut digits: Vec<char> = Vec::new();
    let mut at: usize = start;
    while at < end
        invariant
            start <= at <= end <= chars@.len(),
            start <= point <= end,
            fraction_from == if point < end {
                point + 1
            } else {
                end as int
            },
            digits@ == if at <= point {
                chars@.subrange(start as int, at as int)
            } else {
                chars@.subrange(start as int, point as int) + chars@.subrange(
                    fraction_from as int,
                    at as int,
                )
            },
        decreases end - at,
    {
        if at != point {
            digits.push(chars[at]);
        }
        at += 1;
        assert(digits@ =~= if at <= point {
            chars@.subrange(start as int, at as int)
        } else {
            chars@.subrange(start as int, point as int) + chars@.subrange(
                fraction_from as int,
                at as int,
            )
        });
    }
    assert(digits@ =~= whole + fraction);
    assert(digits@.subrange(0, digits@.len() as int) =~= digits@);
    proof {
        lemma_all_digits_of_both(whole, fraction);
    }
    if digits.len() == 0 {
        return None;
    }
    match read_digits(&digits, 0, digits.len(), PAST_UNITS) {
        None => None,
        Some(magnitude) => Some(
            Mantissa { negative, magnitude, fraction_len: end - fraction_from },
        ),
    }
}

/// Digits other than zero, raised by a power of ten above 18, are beyond
/// every `i64`.
proof fn lemma_raised_out_of_reach(digits: nat, shift: nat)
    requires
        digits >= 1,
        shift >= 19,
    ensures
        digits * ten_to(shift) >= 10_000_000_000_000_000_000,
{
    lemma_ten_to_grows(19, shift);
    reveal_with_fuel(ten_to, 20);
    assert(digits * ten_to(shift) >= ten_to(shift)) by (nonlinear_arith)
        requires
            digits >= 1,
            ten_to(shift) >= 0,
    ;
}

/// Digits whose count was stopped at `magnitude`, raised by a power of ten
/// of at most `10^18`: the product of the count is in reach, is the true
/// one where the count was not stopped, and is else beyond every `i64`, as
/// the true one is.
proof fn lemma_raised_count(digits: nat, magnitude: nat, raise: nat)
    requires
        magnitude == at_most(digits, PAST_UNITS as nat),
        1 <= raise <= 1_000_000_000_000_000_000,
    ensures
        magnitude * raise <= 0x8000_0000_0000_0001 * 1_000_000_000_000_000_000,
        digits * raise >= magnitude * raise >= magnitude,
{
    assert(magnitude * raise <= 0x8000_0000_0000_0001 * 1_000_000_000_000_000_000)
        by (nonlinear_arith)
        requires
            magnitude <= 0x8000_0000_0000_0001,
            raise <= 1_000_000_000_000_000_000,
    ;
    assert(digits * raise >= magnitude * raise) by (nonlinear_arith)
        requires
            digits >= magnitude,
            raise >= 1,
    ;
    assert(magnitude * raise >= magnitude) by (nonlinear_arith)
        requires
            raise >= 1,
    ;
}

/// The markup of `magnitude` units with the given sign, where the units
/// fit.
fn with_sign(negative: bool, magnitude: u128, scale: u8) -> (markup: Option<Markup>)
    ensures
        markup == markup_within(signed(negative, magnitude as int), scale as int),
{
    if negative && magnitude <= 0x8000_0000_0000_0000 {
        Some(Markup { units: (-(magnitude as i128)) as i64, scale })
    } else if !negative && magnitude <= 0x7fff_ffff_ffff_ffff {
        Some(Markup { units: magnitude as i64, scale })
    } else {
        None
    }
}

/// Puts a markup together from what was read of its text: the digits
/// `magnitude`, of which `fraction_len` stand behind the decimal point, and
/// the power of ten `exponent`, the counts of both stopped at their caps.
fn compose(
    negative: bool,
    magnitude: u128,
    fraction_len: usize,
    exponent: i128,
    digits: Ghost<nat>,
    power: Ghost<int>,
) -> (markup: Option<Markup>)
    requires
        magnitude == at_most(digits@, PAST_UNITS as nat),
        exponent == held_within(power@, PAST_EXPONENT as nat),
    ensures
        markup == composed(negative, digits@, fraction_len as nat, power@),
{
    let shift: i128 = exponent - fraction_len as i128;
    let ghost true_shift = power@ - fraction_len;
    if shift <= 0 {
        assert(true_shift <= shift);
        if shift < -255 {
            return None;
        }
        return with_sign(negative, magnitude, (-shift) as u8);
    }
    assert(true_shift >= shift);
    if magnitude == 0 {
        assert(digits@ * ten_to(true_shift as nat) == 0) by (nonlinear_arith)
            requires
                digits@ == 0,
        ;
        return Some(Markup { units: 0, scale: 0 });
    }
    if shift > 18 {
        proof {
            lemma_raised_out_of_reach(digits@, true_shift as nat);
        }
        return None;
    }
    let raise: u128 = power_of_ten(shift as u8);
    proof {
        lemma_ten_to_grows(shift as nat, 18);
        reveal_with_fuel(ten_to, 19);
        lemma_raised_count(digits@, magnitude as nat, raise as nat);
    }
    with_sign(negative, magnitude * raise, 0)
}

impl Markup {
    /// The default markup on the buy price, `0.1`.
    pub fn standard_buy() -> (markup: Markup)
        ensures
            markup == (Markup { units: 1, scale: 1 }),
    {
        Markup { units: 1, scale: 1 }
    }

    /// The default markup on the sell price, `0.2`.
    pub fn standard_sell() -> (markup: Markup)
        ensures
            markup == (Markup { units: 2, scale: 1 }),
    {
        Markup { units: 2, scale: 1 }
    }

    /// Reads a markup from decimal text, such as `0.15`, `-1.5`, `.5` or
    /// `2`, with or without an exponent, as in `15e-2`.
    pub fn parse(text: &str) -> (markup: Option<Markup>)
        ensures
            markup == markup_of(text@),
    {
        let chars = chars_of(text);
        let n = chars.len();
        assert(chars@.subrange(0, n as int) =~= chars@);
        let lower = find_char(&chars, 0, n, 'e');
        let upper = find_char(&chars, 0, n, 'E');
        let mark: usize = if lower <= upper {
            lower
        } else {
            upper
        };
        let mantissa = match read_decimal(&chars, mark) {
            Some(mantissa) => mantissa,
            None => {
                return None;
            },
        };
        let exponent: i128 = if mark < n {
            assert(exponent_text(chars@) =~= chars@.subrange(mark + 1, n as int));
            match read_integer(&chars, mark + 1, n, PAST_EXPONENT) {
                Some(exponent) => exponent,
                None => {
                    return None;
                },
            }
        } else {
            0
        };
        compose(
            mantissa.negative,
            mantissa.magnitude,
            mantissa.fraction_len,
            exponent,
            Ghost(magnitude_of(mantissa_text(chars@))),
            Ghost(exponent_of(chars@)),
        )
    }

    /// Writes the markup as decimal text.
    pub fn render(&self) -> (text: String)
        ensures
            text@ == decimal_text(*self),
    {
        let mut text = String::new();
        let magnitude: u64 = if self.units < 0 {
            proof {
                reveal_strlit("-");
            }
            text.append("-");
            (-(self.units as i128)) as u64
        } else {
            self.units as u64
        };
        let mut digits = String::new();
        append_digits(&mut digits, magnitude as u128);
        assert(digits@ =~= decimal_digits(magnitude as nat));
        let count = digits.as_str().unicode_len();
        let scale = self.scale as usize;
        if scale == 0 {
            text.append(digits.as_str());
        } else if count <= scale {
            proof {
                reveal_strlit("0.");
            }
            text.append("0.");
            assert("0."@ =~= seq!['0', '.']);
            let ghost head = text@;
            let mut k: usize = 0;
            assert(text@ =~= head + zeros(0));
            while k < scale - count
                invariant
                    k <= scale - count,
                    count <= scale,
                    text@ == head + zeros(k as nat),
                decreases scale - count - k,
            {
                proof {
                    reveal_strlit("0");
                }
                text.append("0");
                k += 1;
                assert(text@ =~= head + zeros(k as nat));
            }
            text.append(digits.as_str());
        } else {
            proof {
                reveal_strlit(".");
            }
            text.append(digits.as_str().substring_char(0, count - scale));
            text.append(".");
            text.append(digits.as_str().substring_char(count - scale, count));
            assert(digits@.take(count - scale) =~= digits@.subrange(0, count - scale));
            assert(digits@.skip(count - scale) =~= digits@.subrange(count - scale, count as int));
        }
        assert(text@ =~= decimal_text(*self));
        text
    }
}

} // verus!
