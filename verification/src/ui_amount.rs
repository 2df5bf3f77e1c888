//! The decimal converter: between a raw amount and the decimal text that
//! shows it, scaled by the decimals of a mint.
//!
//! The text of an amount is its whole part, and behind a point the digits of
//! its fraction without trailing zeros; an amount without a fraction has no
//! point. Texts are ASCII and handled as bytes.

use vstd::arithmetic::div_mod::{
    lemma_basic_div, lemma_breakdown, lemma_div_denominator, lemma_fundamental_div_mod,
    lemma_small_mod,
};
use vstd::arithmetic::mul::lemma_mul_inequality;
use vstd::prelude::*;
use vstd::slice::slice_subrange;

use crate::error::TokenError;

verus! {

/// The byte of the digit zero.
pub const DIGIT_ZERO: u8 = 48;

/// The byte of the decimal point.
pub const POINT: u8 = 46;

/// Ten to the power of `e`.
pub open spec fn pow10(e: nat) -> nat
    decreases e,
{
    if e == 0 {
        1
    } else {
        10 * pow10((e - 1) as nat)
    }
}

/// The digit of `n` that counts the multiples of ten to the `j`, as a byte.
pub open spec fn digit(n: nat, j: nat) -> u8 {
    (DIGIT_ZERO + (n / pow10(j)) % 10) as u8
}

/// The lowest `width` digits of `n`, the highest of them first.
pub open spec fn fixed_digits(n: nat, width: nat) -> Seq<u8> {
    Seq::new(width, |i: int| digit(n, (width - 1 - i) as nat))
}

/// How many digits `n` has; zero has one.
pub open spec fn digit_count(n: nat) -> nat
    decreases n,
{
    if n < 10 {
        1
    } else {
        1 + digit_count(n / 10)
    }
}

/// The digits of `n` with no leading zero.
pub open spec fn digits(n: nat) -> Seq<u8> {
    fixed_digits(n, digit_count(n))
}

/// The length of `text` without its trailing zero digits.
pub open spec fn trimmed_len(text: Seq<u8>) -> nat
    decreases text.len(),
{
    if text.len() > 0 && text.last() == DIGIT_ZERO {
        trimmed_len(text.drop_last())
    } else {
        text.len()
    }
}

/// `text` without its trailing zero digits.
pub open spec fn trim_zeros(text: Seq<u8>) -> Seq<u8> {
    text.subrange(0, trimmed_len(text) as int)
}

/// The digits behind the point of the text of `raw`.
pub open spec fn fraction_digits(raw: u64, decimals: u8) -> Seq<u8> {
    trim_zeros(fixed_digits(raw as nat % pow10(decimals as nat), decimals as nat))
}

/// The text of `raw` at `decimals` decimals: the digits of `raw / 10^decimals`,
/// and, where the fraction is not zero, a point and the `decimals` digits of
/// the fraction without trailing zeros.
pub open spec fn ui_amount(raw: u64, decimals: u8) -> Seq<u8> {
    let whole = digits(raw as nat / pow10(decimals as nat));
    let fraction = fraction_digits(raw, decimals);
    if fraction.len() == 0 {
        whole
    } else {
        whole + seq![POINT] + fraction
    }
}

/// Whether a byte is a decimal digit.
pub open spec fn is_digit(byte: u8) -> bool {
    DIGIT_ZERO <= byte <= DIGIT_ZERO + 9
}

/// Whether `text` consists of decimal digits.
pub open spec fn is_digits(text: Seq<u8>) -> bool {
    forall|i: int| 0 <= i < text.len() ==> is_digit(#[trigger] text[i])
}

/// The number that a text of digits denotes; the empty text denotes zero.
pub open spec fn number(text: Seq<u8>) -> nat
    decreases text.len(),
{
    if text.len() == 0 {
        0
    } else {
        number(text.drop_last()) * 10 + (text.last() - DIGIT_ZERO) as nat
    }
}

/// Whether `p` is where `text` splits: at its first point, or at its end
/// where it has none.
pub open spec fn splits_at(text: Seq<u8>, p: int) -> bool {
    &&& 0 <= p <= text.len()
    &&& forall|k: int| 0 <= k < p ==> #[trigger] text[k] != POINT
    &&& p < text.len() ==> text[p] == POINT
}

/// Where `text` splits.
pub open spec fn point_index(text: Seq<u8>) -> int {
    choose|p: int| splits_at(text, p)
}

/// What stands before the first point of `text`.
pub open spec fn whole_part(text: Seq<u8>) -> Seq<u8> {
    text.subrange(0, point_index(text))
}

/// What stands behind the first point of `text`.
pub open spec fn fraction_part(text: Seq<u8>) -> Seq<u8> {
    if point_index(text) < text.len() {
        text.subrange(point_index(text) + 1, text.len() as int)
    } else {
        Seq::empty()
    }
}

/// Whether `text` is a decimal number of at most `decimals` decimals: digits,
/// with at most one point among them, at least one digit, and no more than
/// `decimals` digits behind the point.
pub open spec fn well_formed_ui_amount(text: Seq<u8>, decimals: u8) -> bool {
    &&& is_digits(whole_part(text))
    &&& is_digits(fraction_part(text))
    &&& whole_part(text).len() + fraction_part(text).len() > 0
    &&& fraction_part(text).len() <= decimals
}

/// The raw amount that a well-formed text denotes at `decimals` decimals,
/// whatever its size.
pub open spec fn scaled_value(text: Seq<u8>, decimals: u8) -> nat {
    number(whole_part(text)) * pow10(decimals as nat) + number(fraction_part(text)) * pow10(
        (decimals - fraction_part(text).len()) as nat,
    )
}

/// The raw amount that `text` denotes at `decimals` decimals. A text that is
/// not well formed fails with `InvalidArgument`, and an amount beyond the
/// range of a `u64` with `Overflow`.
pub open spec fn parse_ui_amount(text: Seq<u8>, decimals: u8) -> Result<u64, TokenError> {
    if !well_formed_ui_amount(text, decimals) {
        Err(TokenError::InvalidArgument)
    } else if scaled_value(text, decimals) > u64::MAX {
        Err(TokenError::Overflow)
    } else {
        Ok(scaled_value(text, decimals) as u64)
    }
}

/// Powers of ten are positive and grow with the exponent.
pub proof fn lemma_pow10_grows(a: nat, b: nat)
    requires
        a <= b,
    ensures
        0 < pow10(a) <= pow10(b),
    decreases b,
{
    if b == 0 {
    } else if a == b {
        lemma_pow10_grows((a - 1) as nat, (b - 1) as nat);
    } else {
        lemma_pow10_grows(a, (b - 1) as nat);
    }
}

/// The power of a sum is the product of the powers.
pub proof fn lemma_pow10_adds(a: nat, b: nat)
    ensures
        pow10(a + b) == pow10(a) * pow10(b),
    decreases a,
{
    if a == 0 {
        assert(pow10(0) == 1);
        assert(1 * pow10(b) == pow10(b));
    } else {
        let less = pow10((a - 1) as nat);
        lemma_pow10_adds((a - 1) as nat, b);
        assert(pow10(a + b) == 10 * pow10((a - 1 + b) as nat));
        assert(pow10(a) == 10 * less);
        assert(10 * (less * pow10(b)) == (10 * less) * pow10(b)) by (nonlinear_arith);
    }
}

/// Ten to the twentieth lies beyond every `u64`.
pub proof fn lemma_pow10_of_20()
    ensures
        pow10(19) == 10_000_000_000_000_000_000,
        pow10(20) > u64::MAX,
{
    reveal_with_fuel(pow10, 21);
}

/// A number is smaller than ten to the number of its digits.
pub proof fn lemma_digit_count_bounds(n: nat)
    ensures
        digit_count(n) >= 1,
        n < pow10(digit_count(n)),
    decreases n,
{
    if n < 10 {
        reveal_with_fuel(pow10, 2);
    } else {
        lemma_digit_count_bounds(n / 10);
    }
}

/// A text of width `width + 1` is that of the tenth at width `width`, with
/// the last digit behind it.
pub proof fn lemma_fixed_digits_step(n: nat, width: nat)
    ensures
        fixed_digits(n, width + 1) == fixed_digits(n / 10, width).push(digit(n, 0)),
{
    let long = fixed_digits(n, width + 1);
    let short = fixed_digits(n / 10, width).push(digit(n, 0));
    assert forall|i: int| 0 <= i < long.len() implies long[i] == short[i] by {
        if i < width {
            let j = (width - 1 - i) as nat;
            lemma_pow10_grows(0, j);
            lemma_div_denominator(n as int, 10, pow10(j) as int);
            assert(pow10(j + 1) == 10 * pow10(j));
            assert((n / 10) / pow10(j) == n / pow10(j + 1));
        }
    }
    assert(long =~= short);
}

/// The lowest `width` digits of `n` denote what `n` leaves above the
/// multiples of ten to the `width`.
pub proof fn lemma_number_of_fixed_digits(n: nat, width: nat)
    ensures
        number(fixed_digits(n, width)) == n % pow10(width),
    decreases width,
{
    if width == 0 {
        assert(fixed_digits(n, 0).len() == 0);
    } else {
        let w = (width - 1) as nat;
        lemma_fixed_digits_step(n, w);
        lemma_number_of_fixed_digits(n / 10, w);
        let text = fixed_digits(n, width);
        assert(text.drop_last() =~= fixed_digits(n / 10, w));
        assert(text.last() == digit(n, 0));
        assert(pow10(0) == 1);
        assert(n / 1 == n);
        assert(digit(n, 0) == (DIGIT_ZERO + n % 10) as u8);
        assert((text.last() - DIGIT_ZERO) as nat == n % 10);
        lemma_pow10_grows(0, w);
        lemma_breakdown(n as int, 10, pow10(w) as int);
        assert(pow10(width) == 10 * pow10(w));
    }
}

/// The digits of a number denote it.
pub proof fn lemma_number_of_digits(n: nat)
    ensures
        number(digits(n)) == n,
        is_digits(digits(n)),
        digits(n).len() >= 1,
{
    lemma_digit_count_bounds(n);
    lemma_number_of_fixed_digits(n, digit_count(n));
    lemma_small_mod(n, pow10(digit_count(n)));
}

/// A text that ends in `zeros` zero digits, and in no more, is trimmed to
/// what stands before them.
pub proof fn lemma_trimmed_len(text: Seq<u8>, zeros: nat)
    requires
        zeros <= text.len(),
        forall|k: int| text.len() - zeros <= k < text.len() ==> text[k] == DIGIT_ZERO,
        zeros < text.len() ==> text[text.len() - zeros - 1] != DIGIT_ZERO,
    ensures
        trimmed_len(text) == text.len() - zeros,
    decreases zeros,
{
    if zeros == 0 {
    } else {
        lemma_trimmed_len(text.drop_last(), (zeros - 1) as nat);
    }
}

/// The trimmed text is no longer than the text, and does not end in zero.
pub proof fn lemma_trimmed_len_bounds(text: Seq<u8>)
    ensures
        trimmed_len(text) <= text.len(),
        trimmed_len(text) > 0 ==> text[trimmed_len(text) - 1] != DIGIT_ZERO,
        forall|k: int| trimmed_len(text) <= k < text.len() ==> text[k] == DIGIT_ZERO,
    decreases text.len(),
{
    if text.len() > 0 && text.last() == DIGIT_ZERO {
        let shorter = text.drop_last();
        lemma_trimmed_len_bounds(shorter);
        assert forall|k: int| trimmed_len(text) <= k < text.len() implies text[k]
            == DIGIT_ZERO by {
            if k < shorter.len() {
                assert(shorter[k] == text[k]);
            }
        }
    }
}

/// Digits in front of a text shift by its length.
pub proof fn lemma_number_concat(front: Seq<u8>, back: Seq<u8>)
    ensures
        number(front + back) == number(front) * pow10(back.len()) + number(back),
    decreases back.len(),
{
    if back.len() == 0 {
        assert(front + back =~= front);
        assert(pow10(0) == 1);
        assert(number(front) * 1 == number(front));
    } else {
        let all = front + back;
        assert(all.drop_last() =~= front + back.drop_last());
        assert(all.last() == back.last());
        lemma_number_concat(front, back.drop_last());
        let shorter = pow10((back.len() - 1) as nat);
        let last = (back.last() - DIGIT_ZERO) as nat;
        let inner = number(back.drop_last());
        assert(pow10(back.len()) == 10 * shorter);
        assert(number(all) == number(all.drop_last()) * 10 + last);
        assert(number(back) == inner * 10 + last);
        assert(number(all.drop_last()) == number(front) * shorter + inner);
        assert((number(front) * shorter + inner) * 10 + last == number(front) * (10 * shorter)
            + (inner * 10 + last)) by (nonlinear_arith);
    }
}

/// Zero digits denote zero.
pub proof fn lemma_number_of_zeros(text: Seq<u8>)
    requires
        forall|k: int| 0 <= k < text.len() ==> text[k] == DIGIT_ZERO,
    ensures
        number(text) == 0,
    decreases text.len(),
{
    if text.len() > 0 {
        lemma_number_of_zeros(text.drop_last());
    }
}

/// A text splits in one place only.
pub proof fn lemma_splits_once(text: Seq<u8>, p: int)
    requires
        splits_at(text, p),
    ensures
        point_index(text) == p,
{
    let q = point_index(text);
    assert(splits_at(text, q));
    if q < p {
        assert(text[q] != POINT);
    }
    if p < q {
        assert(text[p] != POINT);
    }
}

/// A text before which no point stands, and which ends or goes on with a
/// point, splits there into what stands before and behind.
pub proof fn lemma_split(whole: Seq<u8>, fraction: Seq<u8>)
    requires
        is_digits(whole),
    ensures
        whole_part(whole) == whole,
        fraction_part(whole) == Seq::<u8>::empty(),
        whole_part(whole + seq![POINT] + fraction) == whole,
        fraction_part(whole + seq![POINT] + fraction) == fraction,
{
    assert forall|k: int| 0 <= k < whole.len() implies whole[k] != POINT by {
        assert(is_digit(whole[k]));
    }
    lemma_splits_once(whole, whole.len() as int);
    assert(whole.subrange(0, whole.len() as int) =~= whole);
    let text = whole + seq![POINT] + fraction;
    assert forall|k: int| 0 <= k < whole.len() implies #[trigger] text[k] != POINT by {
        assert(text[k] == whole[k]);
    }
    lemma_splits_once(text, whole.len() as int);
    assert(text.subrange(0, whole.len() as int) =~= whole);
    assert(text.subrange(whole.len() as int + 1, text.len() as int) =~= fraction);
}

/// The text of an amount consists of digits and at most one point.
pub proof fn lemma_ui_amount_bytes(raw: u64, decimals: u8)
    ensures
        forall|i: int|
            0 <= i < ui_amount(raw, decimals).len() ==> {
                let byte = #[trigger] ui_amount(raw, decimals)[i];
                is_digit(byte) || byte == POINT
            },
{
    let text = ui_amount(raw, decimals);
    let whole = digits(raw as nat / pow10(decimals as nat));
    let full = fixed_digits(raw as nat % pow10(decimals as nat), decimals as nat);
    let fraction = fraction_digits(raw, decimals);
    lemma_number_of_digits(raw as nat / pow10(decimals as nat));
    lemma_trimmed_len_bounds(full);
    assert forall|i: int| 0 <= i < text.len() implies is_digit(#[trigger] text[i]) || text[i]
        == POINT by {
        if i < whole.len() {
            assert(text[i] == whole[i]);
        } else if i > whole.len() {
            assert(text[i] == fraction[i - whole.len() - 1]);
            assert(fraction[i - whole.len() - 1] == full[i - whole.len() - 1]);
        }
    }
}

/// The text of an amount is read back as that amount, at the same decimals:
/// for every amount and every number of decimals.
pub proof fn lemma_ui_amount_round_trip(raw: u64, decimals: u8)
    ensures
        parse_ui_amount(ui_amount(raw, decimals), decimals) == Ok::<u64, TokenError>(raw),
{
    let scale = pow10(decimals as nat);
    let whole = digits(raw as nat / scale);
    let full = fixed_digits(raw as nat % scale, decimals as nat);
    let fraction = trim_zeros(full);
    let zeros = full.subrange(fraction.len() as int, full.len() as int);
    let text = ui_amount(raw, decimals);
    lemma_pow10_grows(0, decimals as nat);
    lemma_number_of_digits(raw as nat / scale);
    lemma_number_of_fixed_digits(raw as nat % scale, decimals as nat);
    lemma_small_mod(raw as nat % scale, scale);
    lemma_trimmed_len_bounds(full);
    lemma_split(whole, fraction);
    assert(full =~= fraction + zeros);
    lemma_number_concat(fraction, zeros);
    lemma_number_of_zeros(zeros);
    lemma_fundamental_div_mod(raw as int, scale as int);
    assert(number(full) == raw as nat % scale);
    assert(number(fraction) * pow10(zeros.len()) == raw as nat % scale);
    assert(zeros.len() == decimals - fraction.len());
    assert(is_digits(fraction)) by {
        assert forall|i: int| 0 <= i < fraction.len() implies is_digit(
            #[trigger] fraction[i],
        ) by {
            assert(fraction[i] == full[i]);
        }
    }
    assert(number(whole) * scale == scale * (raw as nat / scale)) by (nonlinear_arith)
        requires
            number(whole) == raw as nat / scale,
    ;
    if fraction.len() == 0 {
        assert(text == whole);
        assert(fraction =~= Seq::<u8>::empty());
        assert(number(fraction) == 0);
        assert(0 * pow10(zeros.len()) == 0) by (nonlinear_arith);
        assert(number(Seq::<u8>::empty()) * pow10(decimals as nat) == 0) by (nonlinear_arith)
            requires
                number(Seq::<u8>::empty()) == 0,
        ;
        assert(scaled_value(text, decimals) == raw);
    } else {
        assert(text == whole + seq![POINT] + fraction);
        assert(scaled_value(text, decimals) == raw);
    }
}

/// Ten to the power of `e`, for the exponents whose power a `u64` holds.
pub(crate) fn power_of_ten(e: u8) -> (power: u64)
    requires
        e <= 19,
    ensures
        power == pow10(e as nat),
{
    let mut power: u64 = 1;
    let mut i: u8 = 0;
    while i < e
        invariant
            i <= e <= 19,
            power == pow10(i as nat),
        decreases e - i,
    {
        proof {
            lemma_pow10_grows((i + 1) as nat, 19);
            lemma_pow10_of_20();
        }
        power = power * 10;
        i += 1;
    }
    power
}

/// The digit of `n` that counts the multiples of ten to the `j`.
pub(crate) fn digit_at(n: u64, j: usize) -> (byte: u8)
    ensures
        byte == digit(n as nat, j as nat),
{
    if j > 19 {
        proof {
            lemma_pow10_of_20();
            lemma_pow10_grows(20, j as nat);
            lemma_basic_div(n as int, pow10(j as nat) as int);
        }
        DIGIT_ZERO
    } else {
        let power = power_of_ten(j as u8);
        proof {
            lemma_pow10_grows(0, j as nat);
        }
        DIGIT_ZERO + ((n / power) % 10) as u8
    }
}

/// How many digits `n` has.
pub(crate) fn count_digits(n: u64) -> (count: usize)
    ensures
        count == digit_count(n as nat),
        1 <= count <= 20,
{
    let mut rest = n;
    let mut count: usize = 1;
    proof {
        assert(pow10(0) == 1);
        assert(rest as nat * 1 == rest);
    }
    while rest >= 10
        invariant
            1 <= count <= 20,
            digit_count(n as nat) == digit_count(rest as nat) + count - 1,
            rest as nat * pow10((count - 1) as nat) <= n,
        decreases rest,
    {
        proof {
            lemma_pow10_of_20();
            lemma_pow10_grows((count - 1) as nat, 19);
            if count == 20 {
                assert(rest as nat * pow10(19) >= 10 * pow10(19)) by (nonlinear_arith)
                    requires
                        rest >= 10,
                        pow10(19) > 0,
                ;
            }
            assert(pow10(count as nat) == 10 * pow10((count - 1) as nat));
            assert((rest / 10) as nat * pow10(count as nat) <= rest as nat * pow10(
                (count - 1) as nat,
            )) by (nonlinear_arith)
                requires
                    pow10(count as nat) == 10 * pow10((count - 1) as nat),
                    (rest / 10) * 10 <= rest,
            ;
        }
        rest = rest / 10;
        count += 1;
    }
    count
}

/// Appends the digits of `n` from the one that counts ten to the `high - 1`
/// down to the one that counts ten to the `low`.
pub(crate) fn push_digits(out: &mut Vec<u8>, n: u64, high: usize, low: usize)
    requires
        low <= high,
    ensures
        final(out)@ == old(out)@ + fixed_digits(n as nat, high as nat).subrange(
            0,
            high - low,
        ),
{
    let mut j = high;
    while j > low
        invariant
            low <= j <= high,
            out@ == old(out)@ + fixed_digits(n as nat, high as nat).subrange(0, high - j),
        decreases j,
    {
        j -= 1;
        out.push(digit_at(n, j));
        assert(out@ =~= old(out)@ + fixed_digits(n as nat, high as nat).subrange(0, high - j));
    }
}

/// How many of the lowest `width` digits of `n` are trailing zeros.
pub(crate) fn trailing_zeros(n: u64, width: usize) -> (zeros: usize)
    ensures
        zeros <= width,
        trimmed_len(fixed_digits(n as nat, width as nat)) == width - zeros,
{
    let mut zeros: usize = 0;
    while zeros < width && digit_at(n, zeros) == DIGIT_ZERO
        invariant
            zeros <= width,
            forall|j: nat| j < zeros ==> #[trigger] digit(n as nat, j) == DIGIT_ZERO,
        decreases width - zeros,
    {
        zeros += 1;
    }
    proof {
        let text = fixed_digits(n as nat, width as nat);
        assert forall|k: int| text.len() - zeros <= k < text.len() implies text[k]
            == DIGIT_ZERO by {
            assert(text[k] == digit(n as nat, (width - 1 - k) as nat));
        }
        lemma_trimmed_len(text, zeros as nat);
    }
    zeros
}

/// Writes the text of `raw` at `decimals` decimals.
pub fn amount_to_ui_amount_bytes(raw: u64, decimals: u8) -> (text: Vec<u8>)
    ensures
        text@ == ui_amount(raw, decimals),
{
    let (whole, fraction): (u64, u64) = if decimals <= 19 {
        let power = power_of_ten(decimals);
        proof {
            lemma_pow10_grows(0, decimals as nat);
        }
        (raw / power, raw % power)
    } else {
        proof {
            lemma_pow10_of_20();
            lemma_pow10_grows(20, decimals as nat);
            lemma_basic_div(raw as int, pow10(decimals as nat) as int);
            lemma_small_mod(raw as nat, pow10(decimals as nat));
        }
        (0, raw)
    };
    let width = decimals as usize;
    let count = count_digits(whole);
    let zeros = trailing_zeros(fraction, width);
    let mut out: Vec<u8> = Vec::new();
    push_digits(&mut out, whole, count, 0);
    assert(out@ =~= digits(whole as nat));
    if zeros < width {
        out.push(POINT);
        push_digits(&mut out, fraction, width, zeros);
        assert(out@ =~= digits(whole as nat) + seq![POINT] + fraction_digits(raw, decimals));
    }
    out
}

/// Whether the bytes of `text` from `start` to `end` are digits.
fn all_digits(text: &[u8], start: usize, end: usize) -> (yes: bool)
    requires
        start <= end <= text.len(),
    ensures
        yes == is_digits(text@.subrange(start as int, end as int)),
{
    let ghost part = text@.subrange(start as int, end as int);
    let mut i = start;
    while i < end
        invariant
            start <= i <= end <= text.len(),
            part == text@.subrange(start as int, end as int),
            forall|k: int| 0 <= k < i - start ==> is_digit(#[trigger] part[k]),
        decreases end - i,
    {
        if text[i] < DIGIT_ZERO || text[i] > DIGIT_ZERO + 9 {
            assert(!is_digit(part[i - start]));
            return false;
        }
        i += 1;
    }
    true
}

/// Puts the digits of `text` behind the digits of `value`: the result is
/// none where it lies beyond the range of a `u64`.
fn append_digits(value: u64, text: &[u8]) -> (extended: Option<u64>)
    requires
        is_digits(text@),
    ensures
        extended matches Some(v) ==> v == value * pow10(text@.len()) + number(text@),
        extended is None ==> value * pow10(text@.len()) + number(text@) > u64::MAX,
{
    let mut acc = value;
    let mut i: usize = 0;
    proof {
        assert(text@.subrange(0, 0) =~= Seq::<u8>::empty());
        assert(pow10(0) == 1);
    }
    while i < text.len()
        invariant
            i <= text.len(),
            is_digits(text@),
            acc == value * pow10(i as nat) + number(text@.subrange(0, i as int)),
        decreases text.len() - i,
    {
        let d = (text[i] - DIGIT_ZERO) as u64;
        let ghost seen = text@.subrange(0, i as int);
        let ghost next = text@.subrange(0, i + 1);
        let ghost rest = text@.subrange(i + 1, text@.len() as int);
        proof {
            assert(next.drop_last() =~= seen);
            assert(next.last() == text@[i as int]);
            assert(pow10((i + 1) as nat) == 10 * pow10(i as nat));
            assert(value * pow10((i + 1) as nat) + number(next) == acc * 10 + d)
                by (nonlinear_arith)
                requires
                    acc == value * pow10(i as nat) + number(seen),
                    number(next) == number(seen) * 10 + d,
                    pow10((i + 1) as nat) == 10 * pow10(i as nat),
            ;
        }
        if acc > (u64::MAX - d) / 10 {
            proof {
                let ahead = value * pow10((i + 1) as nat) + number(next);
                assert(ahead > u64::MAX);
                assert(text@ =~= next + rest);
                lemma_number_concat(next, rest);
                lemma_pow10_adds((i + 1) as nat, rest.len());
                lemma_pow10_grows(0, rest.len());
                assert(value * pow10(text@.len()) + number(text@) >= ahead) by (nonlinear_arith)
                    requires
                        ahead == value * pow10((i + 1) as nat) + number(next),
                        number(text@) == number(next) * pow10(rest.len()) + number(rest),
                        pow10(text@.len()) == pow10((i + 1) as nat) * pow10(rest.len()),
                        pow10(rest.len()) >= 1,
                ;
            }
            return None;
        }
        acc = acc * 10 + d;
        i += 1;
    }
    assert(text@.subrange(0, text@.len() as int) =~= text@);
    Some(acc)
}

/// Multiplies `value` by ten to the `zeros`: the result is none where it
/// lies beyond the range of a `u64`.
fn append_zeros(value: u64, zeros: usize) -> (extended: Option<u64>)
    ensures
        extended matches Some(v) ==> v == value * pow10(zeros as nat),
        extended is None ==> value * pow10(zeros as nat) > u64::MAX,
{
    if value == 0 {
        assert(0 * pow10(zeros as nat) == 0) by (nonlinear_arith);
        return Some(0);
    }
    let mut acc = value;
    let mut i: usize = 0;
    proof {
        assert(pow10(0) == 1);
    }
    while i < zeros
        invariant
            i <= zeros,
            value > 0,
            acc == value * pow10(i as nat),
        decreases zeros - i,
    {
        proof {
            assert(pow10((i + 1) as nat) == 10 * pow10(i as nat));
            assert(value * pow10((i + 1) as nat) == acc * 10) by (nonlinear_arith)
                requires
                    acc == value * pow10(i as nat),
                    pow10((i + 1) as nat) == 10 * pow10(i as nat),
            ;
        }
        if acc > u64::MAX / 10 {
            proof {
                lemma_pow10_grows((i + 1) as nat, zeros as nat);
                lemma_mul_inequality(
                    pow10((i + 1) as nat) as int,
                    pow10(zeros as nat) as int,
                    value as int,
                );
                assert(value * pow10(zeros as nat) == pow10(zeros as nat) * value)
                    by (nonlinear_arith);
                assert(value * pow10((i + 1) as nat) == pow10((i + 1) as nat) * value)
                    by (nonlinear_arith);
            }
            return None;
        }
        acc = acc * 10;
        i += 1;
    }
    Some(acc)
}

/// Reads the raw amount that `text` denotes at `decimals` decimals.
///
/// Fails with `InvalidArgument` where `text` is no decimal number, or has
/// more than `decimals` digits behind the point, and with `Overflow` where
/// the amount lies beyond the range of a `u64`.
pub fn ui_amount_bytes_to_amount(text: &[u8], decimals: u8) -> (amount: Result<u64, TokenError>)
    ensures
        amount == parse_ui_amount(text@, decimals),
{
    let mut p: usize = 0;
    while p < text.len() && text[p] != POINT
        invariant
            p <= text.len(),
            forall|k: int| 0 <= k < p ==> #[trigger] text@[k] != POINT,
        decreases text.len() - p,
    {
        p += 1;
    }
    proof {
        lemma_splits_once(text@, p as int);
    }
    let behind: usize = if p < text.len() {
        p + 1
    } else {
        p
    };
    let whole = slice_subrange(text, 0, p);
    let fraction = slice_subrange(text, behind, text.len());
    assert(whole@ =~= whole_part(text@));
    assert(fraction@ =~= fraction_part(text@));
    if !all_digits(text, 0, p) || !all_digits(text, behind, text.len()) {
        return Err(TokenError::InvalidArgument);
    }
    if whole.len() + fraction.len() == 0 || fraction.len() > decimals as usize {
        return Err(TokenError::InvalidArgument);
    }
    let pad = decimals as usize - fraction.len();
    let ghost w = number(whole@);
    let ghost f = number(fraction@);
    let ghost shift = pow10(fraction@.len());
    let ghost scale = pow10(pad as nat);
    proof {
        lemma_pow10_adds(fraction@.len(), pad as nat);
        lemma_pow10_grows(0, fraction@.len());
        lemma_pow10_grows(0, pad as nat);
        assert(pow10(decimals as nat) == shift * scale);
        assert(scaled_value(text@, decimals) == (w * shift + f) * scale) by (nonlinear_arith)
            requires
                scaled_value(text@, decimals) == w * (shift * scale) + f * scale,
        ;
        assert(0 * pow10(whole@.len()) == 0) by (nonlinear_arith);
    }
    let read_whole = match append_digits(0, whole) {
        Some(v) => v,
        None => {
            proof {
                assert((w * shift + f) * scale >= w) by (nonlinear_arith)
                    requires
                        shift >= 1,
                        scale >= 1,
                ;
            }
            return Err(TokenError::Overflow);
        },
    };
    let read_both = match append_digits(read_whole, fraction) {
        Some(v) => v,
        None => {
            proof {
                assert((w * shift + f) * scale >= w * shift + f) by (nonlinear_arith)
                    requires
                        scale >= 1,
                ;
            }
            return Err(TokenError::Overflow);
        },
    };
    match append_zeros(read_both, pad) {
        Some(v) => Ok(v),
        None => Err(TokenError::Overflow),
    }
}

} // verus!
