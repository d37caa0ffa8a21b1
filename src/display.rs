use vstd::arithmetic::power2::*;
use vstd::prelude::*;

use crate::config::Unit;

verus! {

/// `floor(log2(n))` for positive `n`, and 0 for 0.
pub open spec fn log2_floor(n: nat) -> nat
    decreases n,
{
    if n < 2 {
        0
    } else {
        1 + log2_floor(n / 2)
    }
}

/// `2^log2_floor(n)` is the largest power of two that is at most `n`.
pub proof fn lemma_log2_floor_bounds(n: nat)
    requires
        n >= 1,
    ensures
        pow2(log2_floor(n)) <= n < pow2(log2_floor(n) + 1),
    decreases n,
{
    if n < 2 {
        lemma2_to64();
    } else {
        lemma_log2_floor_bounds(n / 2);
        let k = log2_floor(n / 2);
        lemma_pow2_unfold(k + 1);
        lemma_pow2_unfold(k + 2);
    }
}

/// A value below `2^64` has its highest set bit below position 64.
proof fn lemma_log2_floor_u64(n: u64)
    ensures
        log2_floor(n as nat) < 64,
{
    if n >= 1 && log2_floor(n as nat) >= 64 {
        lemma_log2_floor_bounds(n as nat);
        lemma2_to64();
        if log2_floor(n as nat) > 64 {
            lemma_pow2_strictly_increases(64, log2_floor(n as nat));
        }
    }
}

/// Position of the highest set bit of `raw`, or 0 when `raw` is 0.
pub fn highest_bit(raw: u64) -> (r: u32)
    ensures
        r as nat == log2_floor(raw as nat),
        r < 64,
{
    proof {
        lemma_log2_floor_u64(raw);
    }
    let mut v: u64 = raw;
    let mut p: u32 = 0;
    while v >= 2
        invariant
            log2_floor(raw as nat) == p + log2_floor(v as nat),
            p + log2_floor(v as nat) < 64,
        decreases v,
    {
        v = v / 2;
        p = p + 1;
    }
    p
}

/// The decimal digit `d` as a character.
pub open spec fn digit_char(d: nat) -> char {
    if d == 0 {
        '0'
    } else if d == 1 {
        '1'
    } else if d == 2 {
        '2'
    } else if d == 3 {
        '3'
    } else if d == 4 {
        '4'
    } else if d == 5 {
        '5'
    } else if d == 6 {
        '6'
    } else if d == 7 {
        '7'
    } else if d == 8 {
        '8'
    } else {
        '9'
    }
}

/// A character that can appear in a rendered value: a decimal digit or the point.
pub open spec fn is_numeral_char(c: char) -> bool {
    c == '.' || c == '0' || c == '1' || c == '2' || c == '3' || c == '4' || c == '5' || c == '6'
        || c == '7' || c == '8' || c == '9'
}

/// `n` written in decimal, without leading zeros ("0" for zero).
pub open spec fn decimal_digits(n: nat) -> Seq<char>
    decreases n,
{
    if n < 10 {
        seq![digit_char(n)]
    } else {
        decimal_digits(n / 10).push(digit_char(n % 10))
    }
}

/// The lowest `width` decimal digits of `n`, most significant first, zero-padded.
pub open spec fn padded_digits(n: nat, width: nat) -> Seq<char>
    decreases width,
{
    if width == 0 {
        seq![]
    } else {
        padded_digits(n / 10, (width - 1) as nat).push(digit_char(n % 10))
    }
}

/// `s` with every trailing occurrence of `c` removed.
pub open spec fn trim_end_char(s: Seq<char>, c: char) -> Seq<char>
    decreases s.len(),
{
    if s.len() > 0 && s.last() == c {
        trim_end_char(s.drop_last(), c)
    } else {
        s
    }
}

/// At most the first `n` characters of `s`.
pub open spec fn first_chars(s: Seq<char>, n: nat) -> Seq<char> {
    if s.len() <= n {
        s
    } else {
        s.take(n as int)
    }
}

/// The widest a rendered value may be, in characters.
pub const MAX_VALUE_CHARS: usize = 5;

/// The exponent of two that a rate is divided by for display: its highest set
/// bit rounded down to a multiple of ten, that is a power of 1024.
pub open spec fn prefix_power(raw: nat) -> nat {
    let p = log2_floor(raw);
    (p - p % 10) as nat
}

/// `a / b` rounded to the nearest integer, a tie going to the even neighbour.
pub open spec fn div_round_even(a: nat, b: nat) -> nat {
    let q = a / b;
    let r = a % b;
    if 2 * r > b || (2 * r == b && q % 2 == 1) {
        q + 1
    } else {
        q
    }
}

/// How many fraction digits a prefixed rate is rounded to: one when the scaled
/// value is at least 100, else two.
pub open spec fn fraction_digits(raw: nat) -> nat {
    if raw >= 100 * pow2(prefix_power(raw)) {
        1
    } else {
        2
    }
}

/// `10^fraction_digits(raw)`.
pub open spec fn fraction_scale(raw: nat) -> nat {
    if fraction_digits(raw) == 1 {
        10
    } else {
        100
    }
}

/// The numeric part of the display of a rate.
///
/// Below 1024 the rate is written as a plain integer. Otherwise it is divided
/// by `2^prefix_power(raw)`, rounded to `fraction_digits(raw)` places, stripped
/// of trailing zeros and of a point left bare, and cut to five characters. The
/// cut may leave a trailing point, or drop a digit that the rounding produced;
/// this keeps the panel's width fixed.
pub open spec fn value_text(raw: nat) -> Seq<char> {
    if log2_floor(raw) < 10 {
        decimal_digits(raw)
    } else {
        let scale = fraction_scale(raw);
        let n = div_round_even(raw * scale, pow2(prefix_power(raw)));
        let full = decimal_digits(n / scale) + seq!['.'] + padded_digits(
            n % scale,
            fraction_digits(raw),
        );
        first_chars(trim_end_char(trim_end_char(full, '0'), '.'), MAX_VALUE_CHARS as nat)
    }
}

/// The magnitude prefix of a rate: "M" from `2^20`, "K" from `2^10`, else none.
pub open spec fn prefix_text(raw: nat) -> Seq<char> {
    if log2_floor(raw) >= 20 {
        seq!['M']
    } else if log2_floor(raw) >= 10 {
        seq!['K']
    } else {
        seq![]
    }
}

/// "b/s" for bits, "B/s" for bytes.
pub open spec fn per_second_text(unit: Unit) -> Seq<char> {
    match unit {
        Unit::Bits => seq!['b', '/', 's'],
        Unit::Bytes => seq!['B', '/', 's'],
    }
}

/// The unit suffix shown after the value of a rate.
pub open spec fn unit_text(raw: nat, unit: Unit) -> Seq<char> {
    prefix_text(raw) + per_second_text(unit)
}

fn digit(d: u128) -> (c: char)
    requires
        d < 10,
    ensures
        c == digit_char(d as nat),
        is_numeral_char(c),
{
    if d == 0 {
        '0'
    } else if d == 1 {
        '1'
    } else if d == 2 {
        '2'
    } else if d == 3 {
        '3'
    } else if d == 4 {
        '4'
    } else if d == 5 {
        '5'
    } else if d == 6 {
        '6'
    } else if d == 7 {
        '7'
    } else if d == 8 {
        '8'
    } else {
        '9'
    }
}

fn push_decimal(out: &mut Vec<char>, n: u128)
    ensures
        final(out)@ == old(out)@ + decimal_digits(n as nat),
    decreases n,
{
    if n >= 10 {
        push_decimal(out, n / 10);
    }
    out.push(digit(n % 10));
    assert(final(out)@ =~= old(out)@ + decimal_digits(n as nat));
}

fn push_padded(out: &mut Vec<char>, n: u128, width: u32)
    ensures
        final(out)@ == old(out)@ + padded_digits(n as nat, width as nat),
    decreases width,
{
    if width > 0 {
        push_padded(out, n / 10, width - 1);
        out.push(digit(n % 10));
    }
    assert(final(out)@ =~= old(out)@ + padded_digits(n as nat, width as nat));
}

fn trim_end_in_place(v: &mut Vec<char>, c: char)
    ensures
        final(v)@ == trim_end_char(old(v)@, c),
        final(v)@.len() <= old(v)@.len(),
        final(v)@ == old(v)@.take(final(v)@.len() as int),
{
    while v.len() > 0 && v[v.len() - 1] == c
        invariant
            trim_end_char(v@, c) == trim_end_char(old(v)@, c),
            v@.len() <= old(v)@.len(),
            v@ == old(v)@.take(v@.len() as int),
        decreases v.len(),
    {
        v.pop();
        assert(v@ =~= old(v)@.take(v@.len() as int));
    }
}

fn keep_first(v: &mut Vec<char>, n: usize)
    ensures
        final(v)@ == first_chars(old(v)@, n as nat),
        final(v)@.len() <= old(v)@.len(),
        final(v)@ == old(v)@.take(final(v)@.len() as int),
{
    while v.len() > n
        invariant
            first_chars(v@, n as nat) == first_chars(old(v)@, n as nat),
            v@.len() <= old(v)@.len(),
            v@ == old(v)@.take(v@.len() as int),
        decreases v.len(),
    {
        assert(first_chars(v@.drop_last(), n as nat) =~= first_chars(v@, n as nat));
        v.pop();
        assert(v@ =~= old(v)@.take(v@.len() as int));
    }
}

/// `2^e`.
fn power_of_two(e: u32) -> (r: u128)
    requires
        e <= 64,
    ensures
        r == pow2(e as nat),
{
    let mut r: u128 = 1;
    let mut i: u32 = 0;
    proof {
        lemma2_to64();
    }
    while i < e
        invariant
            i <= e <= 64,
            r == pow2(i as nat),
            pow2(64) == 0x10000000000000000,
        decreases e - i,
    {
        proof {
            lemma_pow2_unfold((i + 1) as nat);
            if i + 1 < 64 {
                lemma_pow2_strictly_increases((i + 1) as nat, 64);
            }
        }
        r = r * 2;
        i = i + 1;
    }
    r
}

proof fn lemma_decimal_digits_numeral(n: nat)
    ensures
        forall|i: int|
            0 <= i < decimal_digits(n).len() ==> is_numeral_char(#[trigger] decimal_digits(n)[i]),
    decreases n,
{
    if n >= 10 {
        lemma_decimal_digits_numeral(n / 10);
        let d = decimal_digits(n / 10);
        assert forall|i: int| 0 <= i < decimal_digits(n).len() implies is_numeral_char(
            #[trigger] decimal_digits(n)[i],
        ) by {
            if i < d.len() {
                assert(decimal_digits(n)[i] == d[i]);
            }
        }
    }
}

proof fn lemma_padded_digits_numeral(n: nat, width: nat)
    ensures
        forall|i: int|
            0 <= i < padded_digits(n, width).len() ==> is_numeral_char(
                #[trigger] padded_digits(n, width)[i],
            ),
    decreases width,
{
    if width > 0 {
        lemma_padded_digits_numeral(n / 10, (width - 1) as nat);
        let d = padded_digits(n / 10, (width - 1) as nat);
        assert forall|i: int| 0 <= i < padded_digits(n, width).len() implies is_numeral_char(
            #[trigger] padded_digits(n, width)[i],
        ) by {
            if i < d.len() {
                assert(padded_digits(n, width)[i] == d[i]);
            }
        }
    }
}

/// A number below 10000 takes at most four digits.
proof fn lemma_decimal_digits_short(n: nat)
    ensures
        n < 10 ==> decimal_digits(n).len() == 1,
        n < 100 ==> decimal_digits(n).len() <= 2,
        n < 1000 ==> decimal_digits(n).len() <= 3,
        n < 10000 ==> decimal_digits(n).len() <= 4,
    decreases n,
{
    if n >= 10 {
        lemma_decimal_digits_short(n / 10);
    }
}

/// Trimming a character off the end keeps a prefix, and stops at any other character.
proof fn lemma_trim_end_char_prefix(s: Seq<char>, c: char, k: int)
    requires
        0 < k <= s.len(),
        s[k - 1] != c,
    ensures
        k <= trim_end_char(s, c).len() <= s.len(),
        trim_end_char(s, c) == s.take(trim_end_char(s, c).len() as int),
    decreases s.len(),
{
    if s.len() > 0 && s.last() == c {
        lemma_trim_end_char_prefix(s.drop_last(), c, k);
        assert(s.drop_last().take(trim_end_char(s, c).len() as int) =~= s.take(
            trim_end_char(s, c).len() as int,
        ));
    } else {
        assert(s.take(s.len() as int) =~= s);
    }
}

/// The value of a rate is never empty.
proof fn lemma_value_text_nonempty(raw: nat)
    ensures
        value_text(raw).len() > 0,
{
    lemma_decimal_digits_short(0);
    if log2_floor(raw) < 10 {
        if raw >= 10 {
            assert(decimal_digits(raw) == decimal_digits(raw / 10).push(digit_char(raw % 10)));
        }
    } else {
        let scale = fraction_scale(raw);
        let n = div_round_even(raw * scale, pow2(prefix_power(raw)));
        let whole = decimal_digits(n / scale);
        if n / scale >= 10 {
            assert(whole == decimal_digits(n / scale / 10).push(digit_char(n / scale % 10)));
        }
        let full = whole + seq!['.'] + padded_digits(n % scale, fraction_digits(raw));
        assert(full[whole.len() as int] == '.');
        lemma_trim_end_char_prefix(full, '0', whole.len() + 1 as int);
        let t = trim_end_char(full, '0');
        assert(t == full.take(t.len() as int));
        assert(t[whole.len() - 1] == full[whole.len() - 1]);
        lemma_decimal_digits_numeral(n / scale);
        assert(is_numeral_char(whole[whole.len() - 1]));
        assert(whole[whole.len() - 1] != '.');
        lemma_trim_end_char_prefix(t, '.', whole.len() as int);
    }
}

fn numeral_text(c: char) -> (r: &'static str)
    requires
        is_numeral_char(c),
    ensures
        r@ == seq![c],
{
    if c == '0' {
        proof {
            reveal_strlit("0");
        }
        "0"
    } else if c == '1' {
        proof {
            reveal_strlit("1");
        }
        "1"
    } else if c == '2' {
        proof {
            reveal_strlit("2");
        }
        "2"
    } else if c == '3' {
        proof {
            reveal_strlit("3");
        }
        "3"
    } else if c == '4' {
        proof {
            reveal_strlit("4");
        }
        "4"
    } else if c == '5' {
        proof {
            reveal_strlit("5");
        }
        "5"
    } else if c == '6' {
        proof {
            reveal_strlit("6");
        }
        "6"
    } else if c == '7' {
        proof {
            reveal_strlit("7");
        }
        "7"
    } else if c == '8' {
        proof {
            reveal_strlit("8");
        }
        "8"
    } else if c == '9' {
        proof {
            reveal_strlit("9");
        }
        "9"
    } else {
        proof {
            reveal_strlit(".");
        }
        "."
    }
}

fn numeral_string(v: &Vec<char>) -> (r: String)
    requires
        forall|i: int| 0 <= i < v@.len() ==> is_numeral_char(#[trigger] v@[i]),
    ensures
        r@ == v@,
{
    let mut r = String::new();
    let mut i: usize = 0;
    while i < v.len()
        invariant
            i <= v@.len(),
            r@ == v@.take(i as int),
            forall|j: int| 0 <= j < v@.len() ==> is_numeral_char(#[trigger] v@[j]),
        decreases v@.len() - i,
    {
        r.append(numeral_text(v[i]));
        i = i + 1;
        assert(r@ =~= v@.take(i as int));
    }
    assert(v@.take(i as int) =~= v@);
    r
}

/// The value of a rate of at least 1024, scaled to its prefix.
fn format_speed(raw: u64, power: u32) -> (r: String)
    requires
        power as nat == log2_floor(raw as nat),
        power >= 10,
    ensures
        r@ == value_text(raw as nat),
{
    proof {
        lemma_log2_floor_u64(raw);
        lemma2_to64();
    }
    let shift: u32 = power - power % 10;
    assert(shift as nat == prefix_power(raw as nat));
    proof {
        if shift < 64 {
            lemma_pow2_strictly_increases(shift as nat, 64);
        }
    }
    let divisor = power_of_two(shift);
    proof {
        lemma_pow2_pos(shift as nat);
    }
    let decimals: u32;
    let scale: u128;
    if raw as u128 >= 100 * divisor {
        decimals = 1;
        scale = 10;
    } else {
        decimals = 2;
        scale = 100;
    }
    assert(raw as u128 * scale <= 0xffff_ffff_ffff_ffff * 100) by (nonlinear_arith)
        requires
            raw <= 0xffff_ffff_ffff_ffff,
            scale <= 100,
    ;
    let scaled = raw as u128 * scale;
    let q = scaled / divisor;
    let rem = scaled % divisor;
    let n = if 2 * rem > divisor || (2 * rem == divisor && q % 2 == 1) {
        q + 1
    } else {
        q
    };
    let mut out: Vec<char> = Vec::new();
    push_decimal(&mut out, n / scale);
    out.push('.');
    push_padded(&mut out, n % scale, decimals);
    proof {
        lemma_decimal_digits_numeral((n / scale) as nat);
        lemma_padded_digits_numeral((n % scale) as nat, decimals as nat);
        assert(out@ =~= decimal_digits((n / scale) as nat) + seq!['.'] + padded_digits(
            (n % scale) as nat,
            decimals as nat,
        ));
    }
    let ghost full = out@;
    trim_end_in_place(&mut out, '0');
    let ghost t1 = out@;
    trim_end_in_place(&mut out, '.');
    let ghost t2 = out@;
    keep_first(&mut out, MAX_VALUE_CHARS);
    assert forall|i: int| 0 <= i < out@.len() implies is_numeral_char(#[trigger] out@[i]) by {
        assert(out@[i] == t2[i]);
        assert(t2[i] == t1[i]);
        assert(t1[i] == full[i]);
    }
    numeral_string(&out)
}

/// The numeric part of the display of `raw`: at most five characters.
pub fn format_value(raw: u64) -> (r: String)
    ensures
        r@ == value_text(raw as nat),
        r@.len() <= MAX_VALUE_CHARS,
        r@.len() > 0,
{
    let power = highest_bit(raw);
    if power < 10 {
        proof {
            if raw > 0 {
                lemma_log2_floor_bounds(raw as nat);
                lemma2_to64();
                if power < 9 {
                    lemma_pow2_strictly_increases((power + 1) as nat, 10);
                }
            }
            lemma_decimal_digits_short(raw as nat);
            lemma_decimal_digits_numeral(raw as nat);
        }
        let mut out: Vec<char> = Vec::new();
        push_decimal(&mut out, raw as u128);
        assert(out@ =~= decimal_digits(raw as nat));
        numeral_string(&out)
    } else {
        let r = format_speed(raw, power);
        proof {
            lemma_value_text_nonempty(raw as nat);
        }
        r
    }
}

/// The unit suffix of `raw` in `unit`: "K" or "M" when the rate is scaled,
/// then "b/s" or "B/s".
pub fn format_unit(raw: u64, unit: Unit) -> (r: String)
    ensures
        r@ == unit_text(raw as nat, unit),
{
    let power = highest_bit(raw);
    let bits = match unit {
        Unit::Bits => true,
        Unit::Bytes => false,
    };
    if power >= 20 && bits {
        proof {
            reveal_strlit("Mb/s");
        }
        String::from_str("Mb/s")
    } else if power >= 20 {
        proof {
            reveal_strlit("MB/s");
        }
        String::from_str("MB/s")
    } else if power >= 10 && bits {
        proof {
            reveal_strlit("Kb/s");
        }
        String::from_str("Kb/s")
    } else if power >= 10 {
        proof {
            reveal_strlit("KB/s");
        }
        String::from_str("KB/s")
    } else if bits {
        proof {
            reveal_strlit("b/s");
        }
        String::from_str("b/s")
    } else {
        proof {
            reveal_strlit("B/s");
        }
        String::from_str("B/s")
    }
}

/// The display of a rate: its value, at most five characters, and its unit
/// suffix.
pub fn format_rate(raw: u64, unit: Unit) -> (r: (String, String))
    ensures
        r.0@ == value_text(raw as nat),
        r.1@ == unit_text(raw as nat, unit),
        0 < r.0@.len() <= MAX_VALUE_CHARS,
        r.1@ == per_second_text(unit) || r.1@ == seq!['K'] + per_second_text(unit) || r.1@
            == seq!['M'] + per_second_text(unit),
{
    (format_value(raw), format_unit(raw, unit))
}

} // verus!
