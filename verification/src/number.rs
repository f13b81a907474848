//! Decimal and hexadecimal numbers as text.
use vstd::prelude::*;
use vstd::string::*;

verus! {

pub open spec fn digit_char(d: int) -> char {
    if d == 0 {
        '0'
    } else if d == 1 {
        '1'
    } else if d == 2 {
        '2'
    } else if d == 3 {
        '3'
    } else if d == 4 {
        '4'
    } else if d == 5 {
        '5'
    } else if d == 6 {
        '6'
    } else if d == 7 {
        '7'
    } else if d == 8 {
        '8'
    } else {
        '9'
    }
}

/// A natural number in decimal, with no leading zero.
pub open spec fn decimal(n: nat) -> Seq<char>
    decreases n,
{
    if n < 10 {
        seq![digit_char(n as int)]
    } else {
        decimal(n / 10).push(digit_char((n % 10) as int))
    }
}

/// An integer in decimal, with a sign only where it is negative.
pub open spec fn decimal_int(n: int) -> Seq<char> {
    if n < 0 {
        seq!['-'] + decimal((-n) as nat)
    } else {
        decimal(n as nat)
    }
}

/// An integer in decimal, always with its sign.
pub open spec fn decimal_signed(n: int) -> Seq<char> {
    if n < 0 {
        seq!['-'] + decimal((-n) as nat)
    } else {
        seq!['+'] + decimal(n as nat)
    }
}

fn char_of_digit(d: u64) -> (r: char)
    requires
        d < 10,
    ensures
        r == digit_char(d as int),
{
    if d == 0 {
        '0'
    } else if d == 1 {
        '1'
    } else if d == 2 {
        '2'
    } else if d == 3 {
        '3'
    } else if d == 4 {
        '4'
    } else if d == 5 {
        '5'
    } else if d == 6 {
        '6'
    } else if d == 7 {
        '7'
    } else if d == 8 {
        '8'
    } else {
        '9'
    }
}

pub fn show(n: u64) -> (r: String)
    ensures
        r@ == decimal(n as nat),
    decreases n,
{
    if n < 10 {
        let mut out = String::new();
        out.push(char_of_digit(n));
        proof {
            assert(out@ =~= decimal(n as nat));
        }
        out
    } else {
        let mut out = show(n / 10);
        out.push(char_of_digit(n % 10));
        out
    }
}

pub fn show_int(n: i64) -> (r: String)
    ensures
        r@ == decimal_int(n as int),
{
    if n < 0 {
        let mut out = String::new();
        out.push('-');
        let size: u64 = magnitude(n);
        out.append(show(size).as_str());
        proof {
            assert(out@ =~= decimal_int(n as int));
        }
        out
    } else {
        show(n as u64)
    }
}

pub fn show_signed(n: i64) -> (r: String)
    ensures
        r@ == decimal_signed(n as int),
{
    let mut out = String::new();
    if n < 0 {
        out.push('-');
    } else {
        out.push('+');
    }
    let size: u64 = magnitude(n);
    out.append(show(size).as_str());
    proof {
        assert(out@ =~= decimal_signed(n as int));
    }
    out
}

/// The distance from zero.
fn magnitude(n: i64) -> (r: u64)
    ensures
        r == (if n < 0 {
            -n
        } else {
            n as int
        }),
{
    if n == i64::MIN {
        0x8000_0000_0000_0000u64
    } else if n < 0 {
        (-n) as u64
    } else {
        n as u64
    }
}

// --- numbers with decimals -----------------------------------------------

/// `n / unit`, rounded to the nearest; halves go to the even neighbour.
pub open spec fn rounded(n: nat, unit: nat) -> nat {
    let low = n / unit;
    let rest = n % unit;
    if 2 * rest > unit || (2 * rest == unit && low % 2 == 1) {
        low + 1
    } else {
        low
    }
}

/// What is left up to a bound.
pub open spec fn short_of(n: int, bound: int) -> int {
    if n < bound {
        bound - n
    } else {
        0
    }
}

/// A fraction over `den` and the power of two it was multiplied by, doubled
/// until its quotient takes all the fifty-three bits of a double.
pub open spec fn normalised(num: nat, pow: nat, den: nat) -> (nat, nat)
    decreases short_of(num as int, (den * 0x10_0000_0000_0000) as int),
{
    if num == 0 || num >= den * 0x10_0000_0000_0000 {
        (num, pow)
    } else {
        normalised(2 * num, 2 * pow, den)
    }
}

/// The double nearest to so many millionths, as a whole number and the power of
/// two that it is divided by.
pub open spec fn nearest_double(millionths: nat) -> (nat, nat) {
    let (num, pow) = normalised(millionths, 1, 1_000_000);
    (rounded(num, 1_000_000), pow)
}

/// The double nearest to a whole number, `unit` being the finest step tried.
pub open spec fn whole_double(n: nat, unit: nat) -> nat
    decreases short_of((0x20_0000_0000_0000 * unit) as int, n as int + 1),
{
    if unit == 0 || n < 0x20_0000_0000_0000 * unit {
        rounded(n, unit) * unit
    } else {
        whole_double(n, 2 * unit)
    }
}

/// The double nearest to so many millionths, with as many decimals as `scale`
/// has zeros.
pub open spec fn fixed_size(millionths: nat, scale: nat) -> Seq<char> {
    let (mantissa, pow) = nearest_double(millionths);
    let shown = rounded(mantissa * scale, pow);
    if scale == 1 {
        decimal(shown)
    } else {
        decimal(shown / scale) + seq!['.'] + decimal(scale + shown % scale).skip(1)
    }
}

/// A number of millionths with as many decimals as `scale` has zeros.
pub open spec fn fixed(millionths: int, scale: nat) -> Seq<char> {
    if millionths < 0 {
        seq!['-'] + fixed_size((-millionths) as nat, scale)
    } else {
        fixed_size(millionths as nat, scale)
    }
}

fn round_to(n: u128, unit: u128) -> (r: u128)
    requires
        unit > 0,
        n < u128::MAX,
    ensures
        r == rounded(n as nat, unit as nat),
        r <= n + 1,
        r * unit <= n + unit,
{
    let low: u128 = n / unit;
    let rest: u128 = n % unit;
    let other: u128 = unit - rest;
    proof {
        assert(low <= n && low * unit <= n && (low + 1) * unit <= n + unit) by (nonlinear_arith)
            requires
                unit >= 1,
                low == n / unit,
        ;
    }
    if rest > other || (rest == other && low % 2 == 1) {
        low + 1
    } else {
        low
    }
}

fn find_double(millionths: u128) -> (r: (u128, u128))
    requires
        millionths <= 0x4_0000_0000_0000_0000,
    ensures
        (r.0 as nat, r.1 as nat) == nearest_double(millionths as nat),
        r.0 <= 0x20_0000_0000_0001,
        r.1 > 0,
{
    let limit: u128 = 1_000_000 * 0x10_0000_0000_0000;
    let mut num: u128 = millionths;
    let mut pow: u128 = 1;
    while num != 0 && num < limit
        invariant
            limit == 1_000_000 * 0x10_0000_0000_0000,
            num < 2 * limit,
            pow > 0,
            num != 0 ==> pow <= num,
            normalised(millionths as nat, 1, 1_000_000) == normalised(
                num as nat,
                pow as nat,
                1_000_000,
            ),
        decreases short_of(num as int, limit as int),
    {
        num = 2 * num;
        pow = 2 * pow;
    }
    (round_to(num, 1_000_000), pow)
}

/// The double nearest to a whole number.
pub fn to_double(n: u128) -> (r: u128)
    requires
        n <= 0x1_0000_0000_0000_0000,
    ensures
        r == whole_double(n as nat, 1),
        r <= 2 * n + 1,
{
    let mut unit: u128 = 1;
    while n >= 0x20_0000_0000_0000 * unit
        invariant
            n <= 0x1_0000_0000_0000_0000,
            1 <= unit,
            unit <= n || unit == 1,
            unit <= 0x1_0000,
            whole_double(n as nat, 1) == whole_double(n as nat, unit as nat),
        decreases short_of(0x20_0000_0000_0000 * unit, n + 1),
    {
        unit = 2 * unit;
    }
    let steps: u128 = round_to(n, unit);
    steps * unit
}

/// A ratio in millionths as a whole number of percent: the double nearest to
/// it, times a hundred as doubles multiply.
pub open spec fn percent_size(millionths: nat) -> Seq<char> {
    let (mantissa, pow) = nearest_double(millionths);
    decimal(rounded(whole_double(mantissa * 100, 1), pow))
}

pub open spec fn percent(millionths: int) -> Seq<char> {
    if millionths < 0 {
        seq!['-'] + percent_size((-millionths) as nat)
    } else {
        percent_size(millionths as nat)
    }
}

fn show_percent_size(millionths: u64) -> (r: String)
    ensures
        r@ == percent_size(millionths as nat),
{
    let (mantissa, pow) = find_double(millionths as u128);
    let hundredfold: u128 = to_double(mantissa * 100);
    show(round_to(hundredfold, pow) as u64)
}

pub fn show_percent(millionths: i64) -> (r: String)
    ensures
        r@ == percent(millionths as int),
{
    let digits = show_percent_size(magnitude(millionths));
    if millionths < 0 {
        let mut out = String::new();
        out.push('-');
        out.append(digits.as_str());
        proof {
            assert(out@ =~= percent(millionths as int));
        }
        out
    } else {
        digits
    }
}

/// So many millionths with no, one or two decimals.
pub fn show_fixed_size(millionths: u128, scale: u64) -> (r: String)
    requires
        millionths <= 0x4_0000_0000_0000_0000,
        scale == 1 || scale == 10 || scale == 100,
    ensures
        r@ == fixed_size(millionths as nat, scale as nat),
{
    let (mantissa, pow) = find_double(millionths);
    let places: u128 = if scale == 1 {
        mantissa
    } else if scale == 10 {
        mantissa * 10
    } else {
        mantissa * 100
    };
    let shown: u64 = round_to(places, pow) as u64;
    if scale == 1 {
        return show(shown);
    }
    let mut out = show(shown / scale);
    out.push('.');
    let rest: u64 = shown % scale;
    if scale == 100 {
        out.push(char_of_digit(rest / 10));
    }
    out.push(char_of_digit(rest % 10));
    proof {
        reveal_with_fuel(decimal, 3);
        let tail = decimal((scale + rest) as nat).skip(1);
        if scale == 100 {
            assert((scale + rest) / 10 / 10 == 1);
            assert((scale + rest) / 10 % 10 == rest / 10);
            assert((scale + rest) % 10 == rest % 10);
            assert(tail =~= seq![digit_char((rest / 10) as int), digit_char((rest % 10) as int)]);
        } else {
            assert((scale + rest) / 10 == 1);
            assert((scale + rest) % 10 == rest % 10);
            assert(tail =~= seq![digit_char((rest % 10) as int)]);
        }
        assert(tail == decimal(scale as nat + shown as nat % scale as nat).skip(1));
        assert(out@ =~= decimal((shown / scale) as nat) + seq!['.'] + tail);
    }
    out
}

/// A number of millionths with no, one or two decimals.
pub fn show_fixed(millionths: i64, scale: u64) -> (r: String)
    requires
        scale == 1 || scale == 10 || scale == 100,
    ensures
        r@ == fixed(millionths as int, scale as nat),
{
    let digits = show_fixed_size(magnitude(millionths) as u128, scale);
    if millionths < 0 {
        let mut out = String::new();
        out.push('-');
        out.append(digits.as_str());
        proof {
            assert(out@ =~= fixed(millionths as int, scale as nat));
        }
        out
    } else {
        digits
    }
}

// --- reading -------------------------------------------------------------

/// The value of a hexadecimal digit.
pub open spec fn hex_digit(c: char) -> Option<nat> {
    if '0' <= c <= '9' {
        Some((c as int - '0' as int) as nat)
    } else if 'a' <= c <= 'f' {
        Some((c as int - 'a' as int + 10) as nat)
    } else if 'A' <= c <= 'F' {
        Some((c as int - 'A' as int + 10) as nat)
    } else {
        None
    }
}

/// The value of a digit in the base, which is at most sixteen.
pub open spec fn digit_in(c: char, base: nat) -> Option<nat> {
    match hex_digit(c) {
        Some(d) => if d < base {
            Some(d)
        } else {
            None
        },
        None => None,
    }
}

/// The value of a run of digits; `None` where something is not a digit.
pub open spec fn digits(s: Seq<char>, base: nat) -> Option<nat>
    decreases s.len(),
{
    if s.len() == 0 {
        Some(0)
    } else {
        match (digits(s.drop_last(), base), digit_in(s.last(), base)) {
            (Some(high), Some(low)) => Some(high * base + low),
            _ => None,
        }
    }
}

/// The number a text without sign spells, where it is no larger than `max`.
pub open spec fn parse_digits(s: Seq<char>, base: nat, max: nat) -> Option<nat> {
    if s.len() == 0 {
        None
    } else {
        match digits(s, base) {
            Some(v) => if v <= max {
                Some(v)
            } else {
                None
            },
            None => None,
        }
    }
}

/// The unsigned number a text spells; one leading plus sign is allowed.
pub open spec fn parse_unsigned(s: Seq<char>, base: nat, max: nat) -> Option<nat> {
    if s.len() > 0 && s[0] == '+' {
        parse_digits(s.skip(1), base, max)
    } else {
        parse_digits(s, base, max)
    }
}

/// The decimal integer a text spells, within `i32`.
pub open spec fn parse_i32(s: Seq<char>) -> Option<int> {
    if s.len() > 0 && s[0] == '-' {
        match parse_digits(s.skip(1), 10, 0x8000_0000) {
            Some(v) => Some(-(v as int)),
            None => None,
        }
    } else {
        match parse_unsigned(s, 10, 0x7fff_ffff) {
            Some(v) => Some(v as int),
            None => None,
        }
    }
}

fn value_of_digit(c: char, base: u64) -> (r: Option<u64>)
    requires
        base <= 16,
    ensures
        match r {
            Some(d) => digit_in(c, base as nat) == Some(d as nat) && d < base,
            None => digit_in(c, base as nat) is None,
        },
{
    let d: u64 = if '0' <= c && c <= '9' {
        (c as u64) - ('0' as u64)
    } else if 'a' <= c && c <= 'f' {
        (c as u64) - ('a' as u64) + 10
    } else if 'A' <= c && c <= 'F' {
        (c as u64) - ('A' as u64) + 10
    } else {
        return None;
    };
    if d < base {
        Some(d)
    } else {
        None
    }
}

/// A longer run of digits is worth no less than its beginning.
proof fn lemma_digits_grow(s: Seq<char>, base: nat, i: int)
    requires
        0 <= i <= s.len(),
        base >= 1,
    ensures
        match (digits(s.take(i), base), digits(s, base)) {
            (Some(a), Some(b)) => a <= b,
            (None, b) => b is None,
            _ => true,
        },
    decreases s.len() - i,
{
    if i < s.len() {
        lemma_digits_grow(s, base, i + 1);
        assert(s.take(i + 1).drop_last() =~= s.take(i));
        match (digits(s.take(i), base), digits(s.take(i + 1), base)) {
            (Some(a), Some(b)) => {
                assert(a <= b) by (nonlinear_arith)
                    requires
                        base >= 1,
                        b >= a * base,
                ;
            },
            _ => {},
        }
    } else {
        assert(s.take(i) =~= s);
    }
}

fn read_digits(s: &Vec<char>, from: usize, base: u64, max: u64) -> (r: Option<u64>)
    requires
        1 <= base <= 16,
        from <= s@.len(),
    ensures
        match r {
            Some(v) => parse_digits(s@.skip(from as int), base as nat, max as nat) == Some(
                v as nat,
            ) && v <= max,
            None => parse_digits(s@.skip(from as int), base as nat, max as nat) is None,
        },
{
    let n: usize = s.len();
    let ghost t = s@.skip(from as int);
    if from == n {
        return None;
    }
    let mut acc: u64 = 0;
    let mut i: usize = from;
    proof {
        assert(t.take(0) =~= seq![]);
    }
    while i < n
        invariant
            1 <= base <= 16,
            n == s@.len(),
            t == s@.skip(from as int),
            from <= i <= n,
            from < n,
            acc <= max,
            digits(t.take(i - from), base as nat) == Some(acc as nat),
        decreases n - i,
    {
        proof {
            assert(t.take(i - from + 1).drop_last() =~= t.take(i - from));
            assert(t.take(i - from + 1).last() == s@[i as int]);
            lemma_digits_grow(t, base as nat, i - from + 1);
        }
        match value_of_digit(s[i], base) {
            Some(d) => {
                if d > max || acc > (max - d) / base {
                    proof {
                        assert(acc * base + d > max) by (nonlinear_arith)
                            requires
                                1 <= base,
                                d > max || acc > (max - d) / (base as int),
                                acc >= 0,
                        ;
                    }
                    return None;
                }
                proof {
                    assert(acc * base + d <= max) by (nonlinear_arith)
                        requires
                            1 <= base,
                            d <= max,
                            acc <= (max - d) / (base as int),
                            acc >= 0,
                    ;
                }
                acc = acc * base + d;
            },
            None => {
                return None;
            },
        }
        i = i + 1;
    }
    proof {
        assert(t.take(n - from) =~= t);
    }
    Some(acc)
}

pub fn read_unsigned(s: &Vec<char>, base: u64, max: u64) -> (r: Option<u64>)
    requires
        1 <= base <= 16,
    ensures
        match r {
            Some(v) => parse_unsigned(s@, base as nat, max as nat) == Some(v as nat) && v <= max,
            None => parse_unsigned(s@, base as nat, max as nat) is None,
        },
{
    proof {
        assert(s@.skip(0) =~= s@);
    }
    if s.len() > 0 && s[0] == '+' {
        read_digits(s, 1, base, max)
    } else {
        read_digits(s, 0, base, max)
    }
}

pub fn read_u32(s: &Vec<char>) -> (r: Option<u32>)
    ensures
        match r {
            Some(v) => parse_unsigned(s@, 10, 0xffff_ffff) == Some(v as nat),
            None => parse_unsigned(s@, 10, 0xffff_ffff) is None,
        },
{
    match read_unsigned(s, 10, 0xffff_ffff) {
        Some(v) => Some(v as u32),
        None => None,
    }
}

pub fn read_i32(s: &Vec<char>) -> (r: Option<i32>)
    ensures
        match r {
            Some(v) => parse_i32(s@) == Some(v as int),
            None => parse_i32(s@) is None,
        },
{
    if s.len() > 0 && s[0] == '-' {
        match read_digits(s, 1, 10, 0x8000_0000) {
            Some(v) => {
                if v == 0x8000_0000 {
                    Some(i32::MIN)
                } else {
                    Some(-(v as i32))
                }
            },
            None => None,
        }
    } else {
        match read_unsigned(s, 10, 0x7fff_ffff) {
            Some(v) => Some(v as i32),
            None => None,
        }
    }
}

/// A number that was written out reads back as itself, and is refused exactly
/// where it is above the bound. A plus in front of it makes no difference.
pub proof fn law_numbers_read_back(n: nat, max: nat)
    ensures
        parse_unsigned(decimal(n), 10, max) == (if n <= max {
            Some(n)
        } else {
            None
        }),
        parse_unsigned(seq!['+'] + decimal(n), 10, max) == parse_unsigned(decimal(n), 10, max),
        parse_unsigned(seq!['-'] + decimal(n), 10, max) is None,
        parse_unsigned(seq![], 10, max) is None,
{
    lemma_decimal_digits(n);
    let s = decimal(n);
    let plus = seq!['+'] + s;
    let minus = seq!['-'] + s;
    assert(plus.skip(1) =~= s);
    assert(s[0] != '+');
    lemma_bad_first_digit(minus, 10);
}

/// Every character of a written number is a digit, and only zero starts with 0.
pub proof fn lemma_decimal_digits(n: nat)
    ensures
        decimal(n).len() > 0,
        forall|i: int| 0 <= i < decimal(n).len() ==> '0' <= #[trigger] decimal(n)[i] <= '9',
        digits(decimal(n), 10) == Some(n),
        n > 0 ==> decimal(n)[0] != '0',
    decreases n,
{
    if n < 10 {
        assert(decimal(n).drop_last() =~= seq![]);
        assert(digits(Seq::empty(), 10) == Some(0nat));
        assert(digit_in(decimal(n).last(), 10) == Some(n));
    } else {
        lemma_decimal_digits(n / 10);
        let d = digit_char((n % 10) as int);
        assert(decimal(n) == decimal(n / 10).push(d));
        assert(decimal(n).drop_last() =~= decimal(n / 10));
        assert(decimal(n)[0] == decimal(n / 10)[0]);
        assert(digit_in(d, 10) == Some(n % 10));
        assert forall|i: int| 0 <= i < decimal(n).len() implies '0' <= #[trigger] decimal(n)[i]
            <= '9' by {
            if i < decimal(n / 10).len() {
                assert(decimal(n)[i] == decimal(n / 10)[i]);
            }
        }
    }
}

proof fn lemma_bad_first_digit(s: Seq<char>, base: nat)
    requires
        s.len() > 0,
        digit_in(s[0], base) is None,
    ensures
        digits(s, base) is None,
    decreases s.len(),
{
    if s.len() > 1 {
        lemma_bad_first_digit(s.drop_last(), base);
    }
}

/// A signed number reads back as itself, with and without its plus.
pub proof fn law_signed_numbers_read_back(n: int)
    requires
        -0x8000_0000 <= n <= 0x7fff_ffff,
    ensures
        parse_i32(decimal_int(n)) == Some(n),
        parse_i32(decimal_signed(n)) == Some(n),
        n < 0 ==> decimal_signed(n)[0] == '-' && decimal_int(n)[0] == '-',
        n >= 0 ==> decimal_signed(n)[0] == '+' && decimal_int(n)[0] != '-',
{
    if n < 0 {
        lemma_decimal_digits((-n) as nat);
        assert((seq!['-'] + decimal((-n) as nat)).skip(1) =~= decimal((-n) as nat));
    } else {
        lemma_decimal_digits(n as nat);
        law_numbers_read_back(n as nat, 0x7fff_ffff);
        assert(decimal(n as nat)[0] != '-');
    }
}

/// In base 16 the letters up to f stand for ten and more, in either case; in
/// base 10 they are refused.
pub proof fn law_letters_are_digits_of_base_sixteen(c: char, d: int)
    requires
        0 <= d < 6,
        c as int == 'a' as int + d || c as int == 'A' as int + d,
    ensures
        parse_unsigned(seq![c], 16, 255) == Some((10 + d) as nat),
        parse_unsigned(seq!['1', c], 16, 255) == Some((26 + d) as nat),
        parse_unsigned(seq![c], 10, 255) is None,
{
    assert(seq![c].drop_last() =~= seq![]);
    assert(seq!['1', c].drop_last() =~= seq!['1']);
    assert(seq!['1'].drop_last() =~= seq![]);
    assert(digits(Seq::empty(), 16) == Some(0nat));
    assert(digits(Seq::empty(), 10) == Some(0nat));
    assert(digits(seq!['1'], 16) == Some(1nat));
    assert(digits(seq!['1', c], 16) == Some((16 + 10 + d) as nat));
}

/// Rounding gives the nearest multiple, and the even one where two are as near.
pub proof fn law_rounding_is_to_the_nearest(n: nat, unit: nat)
    requires
        unit > 0,
    ensures
        2 * (n - rounded(n, unit) * unit) <= unit,
        2 * (rounded(n, unit) * unit - n) <= unit,
        2 * (n - rounded(n, unit) * unit) == unit || 2 * (rounded(n, unit) * unit - n) == unit
            ==> rounded(n, unit) % 2 == 0,
{
    let low = n / unit;
    let rest = n % unit;
    vstd::arithmetic::div_mod::lemma_fundamental_div_mod(n as int, unit as int);
    assert(n == low * unit + rest) by (nonlinear_arith)
        requires
            n == unit * low + rest,
    ;
    assert((low + 1) * unit == low * unit + unit) by (nonlinear_arith);
}

/// A whole number below two to the 53rd is a double of its own.
pub proof fn law_small_numbers_are_doubles(n: nat)
    requires
        n < 0x20_0000_0000_0000,
    ensures
        whole_double(n, 1) == n,
{
    law_rounding_is_to_the_nearest(n, 1);
    assert(rounded(n, 1) * 1 == rounded(n, 1));
}

/// A number of millionths is shown rounded to the nearest that the scale can show,
/// to within the half of a millionth that a double may be off: with as many digits
/// behind the point as the scale has noughts, and without a point where it has
/// none. The result is the number shown, in units of the scale.
pub proof fn law_a_fixed_number_is_the_nearest(v: nat, scale: nat) -> (shown: nat)
    requires
        v <= 0x1000_0000_0000,
        scale == 1 || scale == 10 || scale == 100,
    ensures
        2 * (v * scale - shown * 1_000_000) <= 1_000_001,
        2 * (shown * 1_000_000 - v * scale) <= 1_000_001,
        fixed_size(v, scale) == (if scale == 1 {
            decimal(shown)
        } else {
            decimal(shown / scale) + seq!['.'] + decimal(scale + shown % scale).skip(1)
        }),
        fixed(v as int, scale) == fixed_size(v, scale),
        v > 0 ==> fixed(-(v as int), scale) == seq!['-'] + fixed_size(v, scale),
{
    let p = lemma_normalised(v, 1, 1_000_000);
    let m = rounded(v * p, 1_000_000);
    assert(p * v == v * p) by (nonlinear_arith);
    assert(nearest_double(v) == (m, p));
    let shown = rounded(m * scale, p);
    law_rounding_is_to_the_nearest(v * p, 1_000_000);
    law_rounding_is_to_the_nearest(m * scale, p);
    if v == 0 {
        assert(v * p == 0) by (nonlinear_arith)
            requires
                v == 0,
        ;
        assert(m == 0);
        assert(m * scale == 0) by (nonlinear_arith)
            requires
                m == 0,
        ;
        assert(0nat / p == 0 && 0nat % p == 0) by (nonlinear_arith)
            requires
                p > 0,
        ;
        assert(shown == 0);
        assert(v * scale == 0) by (nonlinear_arith)
            requires
                v == 0,
        ;
    } else {
        assert(scale * 1_000_000 <= p) by (nonlinear_arith)
            requires
                v * p >= 1_000_000 * 0x10_0000_0000_0000,
                0 < v <= 0x1000_0000_0000,
                scale <= 100,
        ;
        lemma_two_roundings(v as int, p as int, m as int, scale as int, shown as int);
    }
    shown
}

proof fn lemma_two_roundings(v: int, p: int, m: int, s: int, x: int)
    requires
        p > 0,
        s >= 1,
        s * 1_000_000 <= p,
        -1_000_000 <= 2 * (v * p - m * 1_000_000) <= 1_000_000,
        -p <= 2 * (m * s - x * p) <= p,
    ensures
        -1_000_001 <= 2 * (v * s - x * 1_000_000) <= 1_000_001,
{
    let a = v * p - m * 1_000_000;
    let b = m * s - x * p;
    let d = v * s - x * 1_000_000;
    assert(p * d == s * a + 1_000_000 * b) by (nonlinear_arith)
        requires
            a == v * p - m * 1_000_000,
            b == m * s - x * p,
            d == v * s - x * 1_000_000,
    ;
    assert(-(s * 1_000_000) <= s * (2 * a) <= s * 1_000_000) by (nonlinear_arith)
        requires
            -1_000_000 <= 2 * a <= 1_000_000,
            s >= 1,
    ;
    assert(s * (2 * a) == 2 * (s * a)) by (nonlinear_arith);
    assert(p * (2 * d) == 2 * (p * d)) by (nonlinear_arith);
    assert(-(p * 1_000_001) <= p * (2 * d) <= p * 1_000_001) by (nonlinear_arith)
        requires
            p * (2 * d) == 2 * (s * a) + 2_000_000 * b,
            -p <= 2 * (s * a) <= p,
            -p <= 2 * b <= p,
    ;
    assert(-1_000_001 <= 2 * d <= 1_000_001) by (nonlinear_arith)
        requires
            p > 0,
            -(p * 1_000_001) <= p * (2 * d) <= p * 1_000_001,
    ;
}

/// Both parts of a fraction are doubled alike until it is large enough.
proof fn lemma_normalised(num: nat, pow: nat, den: nat) -> (k: nat)
    requires
        pow > 0,
    ensures
        k > 0,
        normalised(num, pow, den) == (k * num, k * pow),
        num > 0 ==> k * num >= den * 0x10_0000_0000_0000,
    decreases short_of(num as int, (den * 0x10_0000_0000_0000) as int),
{
    if num == 0 || num >= den * 0x10_0000_0000_0000 {
        assert(1 * num == num && 1 * pow == pow);
        1
    } else {
        let k = lemma_normalised(2 * num, 2 * pow, den);
        assert(k * (2 * num) == (2 * k) * num) by (nonlinear_arith);
        assert(k * (2 * pow) == (2 * k) * pow) by (nonlinear_arith);
        2 * k
    }
}

} // verus!
