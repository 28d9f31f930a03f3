use vstd::prelude::*;
use vstd::string::StringExecFns;

verus! {

/// Number of fractional digits carried by fixed-point amounts.
pub const NANO_DIGITS: u32 = 9;

/// One unit in fixed-point: amounts are held in billionths.
pub const NANO: u64 = 1_000_000_000;

pub open spec fn pow10(n: nat) -> nat
    decreases n,
{
    if n == 0 {
        1
    } else {
        10 * pow10((n - 1) as nat)
    }
}

pub open spec fn digit_char(d: nat) -> char {
    if d == 0 {
        '0'
    } else if d == 1 {
        '1'
    } else if d == 2 {
        '2'
    } else if d == 3 {
        '3'
    } else if d == 4 {
        '4'
    } else if d == 5 {
        '5'
    } else if d == 6 {
        '6'
    } else if d == 7 {
        '7'
    } else if d == 8 {
        '8'
    } else {
        '9'
    }
}

/// Decimal numeral of `n`, without leading zeros.
pub open spec fn digits_of(n: nat) -> Seq<char>
    decreases n,
{
    if n < 10 {
        seq![digit_char(n)]
    } else {
        digits_of(n / 10).push(digit_char(n % 10))
    }
}

/// The last `p` decimal digits of `f`, zero-padded.
pub open spec fn frac_digits(f: nat, p: nat) -> Seq<char>
    decreases p,
{
    if p == 0 {
        seq![]
    } else {
        frac_digits(f / 10, (p - 1) as nat).push(digit_char(f % 10))
    }
}

/// `q` billionths written with exactly `p` fractional digits, the rest cut off.
pub open spec fn fixed_text(q: nat, p: nat) -> Seq<char> {
    let whole = q / pow10(NANO_DIGITS as nat);
    let frac = (q % pow10(NANO_DIGITS as nat)) / pow10((NANO_DIGITS - p) as nat);
    if p == 0 {
        digits_of(whole)
    } else {
        digits_of(whole) + seq!['.'] + frac_digits(frac, p)
    }
}

pub proof fn lemma_pow10_positive(n: nat)
    ensures
        pow10(n) >= 1,
    decreases n,
{
    if n > 0 {
        lemma_pow10_positive((n - 1) as nat);
    }
}

fn digit_str(d: u64) -> (r: &'static str)
    requires
        d < 10,
    ensures
        r@ == seq![digit_char(d as nat)],
{
    proof {
        reveal_strlit("0");
        reveal_strlit("1");
        reveal_strlit("2");
        reveal_strlit("3");
        reveal_strlit("4");
        reveal_strlit("5");
        reveal_strlit("6");
        reveal_strlit("7");
        reveal_strlit("8");
        reveal_strlit("9");
    }
    if d == 0 {
        "0"
    } else if d == 1 {
        "1"
    } else if d == 2 {
        "2"
    } else if d == 3 {
        "3"
    } else if d == 4 {
        "4"
    } else if d == 5 {
        "5"
    } else if d == 6 {
        "6"
    } else if d == 7 {
        "7"
    } else if d == 8 {
        "8"
    } else {
        "9"
    }
}

/// Decimal text of an unsigned integer.
pub fn format_unsigned(n: u64) -> (r: String)
    ensures
        r@ == digits_of(n as nat),
    decreases n,
{
    if n < 10 {
        String::from_str(digit_str(n))
    } else {
        let mut s = format_unsigned(n / 10);
        s.append(digit_str(n % 10));
        s
    }
}

fn format_frac(f: u64, p: u32) -> (r: String)
    ensures
        r@ == frac_digits(f as nat, p as nat),
    decreases p,
{
    if p == 0 {
        proof {
            reveal_strlit("");
        }
        String::from_str("")
    } else {
        let mut s = format_frac(f / 10, p - 1);
        s.append(digit_str(f % 10));
        s
    }
}

fn pow10_exec(n: u32) -> (r: u64)
    requires
        n <= 19,
    ensures
        r == pow10(n as nat),
    decreases n,
{
    if n == 0 {
        1
    } else {
        let p = pow10_exec(n - 1);
        assert(pow10(n as nat) == 10 * pow10((n - 1) as nat));
        assert(p <= 1_000_000_000_000_000_000) by {
            lemma_pow10_bound((n - 1) as nat);
        }
        10 * p
    }
}

proof fn lemma_pow10_bound(n: nat)
    requires
        n <= 18,
    ensures
        pow10(n) <= pow10(18),
        pow10(18) == 1_000_000_000_000_000_000,
    decreases 18 - n,
{
    reveal_with_fuel(pow10, 19);
    if n < 18 {
        lemma_pow10_bound(n + 1);
    }
}

/// `q` billionths as decimal text with `p` fractional digits; digits beyond `p` are cut off.
pub fn format_fixed(q: u64, p: u32) -> (r: String)
    requires
        p <= NANO_DIGITS,
    ensures
        r@ == fixed_text(q as nat, p as nat),
{
    proof {
        reveal_with_fuel(pow10, 10);
    }
    let whole = q / NANO;
    let frac = (q % NANO) / pow10_exec(NANO_DIGITS - p);
    let mut s = format_unsigned(whole);
    if p == 0 {
        return s;
    }
    proof {
        reveal_strlit(".");
    }
    s.append(".");
    let tail = format_frac(frac, p);
    s.append(tail.as_str());
    s
}

/// Largest multiple of a `p`-digit lot that does not exceed `q` billionths.
pub open spec fn truncate_spec(q: nat, p: nat) -> nat {
    let lot = pow10((NANO_DIGITS - p) as nat);
    (q - q % lot) as nat
}

pub fn truncate_to_precision(q: u64, p: u32) -> (r: u64)
    requires
        p <= NANO_DIGITS,
    ensures
        r == truncate_spec(q as nat, p as nat),
        r <= q,
{
    let lot = pow10_exec(NANO_DIGITS - p);
    proof {
        lemma_pow10_positive((NANO_DIGITS - p) as nat);
        assert(q % lot <= q) by (nonlinear_arith)
            requires
                lot >= 1,
        ;
    }
    q - q % lot
}


pub open spec fn is_digit(c: char) -> bool {
    '0' <= c <= '9'
}

pub open spec fn digit_value(c: char) -> int {
    (c as u32) - ('0' as u32)
}

pub open spec fn all_digits(s: Seq<char>) -> bool {
    forall|i: int| 0 <= i < s.len() ==> is_digit(#[trigger] s[i])
}

/// Value of a string of decimal digits.
pub open spec fn digits_value(s: Seq<char>) -> int
    decreases s.len(),
{
    if s.len() == 0 {
        0
    } else {
        digits_value(s.drop_last()) * 10 + digit_value(s.last())
    }
}

/// A decimal number `±digits / 10^scale`, exactly as written.
#[derive(Debug, Clone, Copy, PartialEq, Eq, Structural)]
pub struct Decimal {
    pub negative: bool,
    pub digits: u64,
    pub scale: u32,
}

/// `body` is digits, a point at `p`, and digits.
pub open spec fn point_at(body: Seq<char>, p: int) -> bool {
    0 <= p < body.len() && body[p] == '.' && all_digits(body.take(p)) && all_digits(
        body.skip(p + 1),
    )
}

/// The unsigned numeral `body`: digits, optionally a point and more digits, at least one
/// digit and at most eighteen in all.
pub open spec fn unsigned_spec(body: Seq<char>) -> Option<(nat, nat)> {
    if body.len() == 0 || body.len() > 19 {
        None
    } else if all_digits(body) {
        if body.len() > 18 {
            None
        } else {
            Some((digits_value(body) as nat, 0nat))
        }
    } else if body.len() > 1 && exists|p: int| point_at(body, p) {
        let p = choose|p: int| point_at(body, p);
        Some((digits_value(body.take(p) + body.skip(p + 1)) as nat, (body.len() - p - 1) as nat))
    } else {
        None
    }
}

/// The decimal written in `s`: an optional minus sign and an unsigned numeral.
pub open spec fn decimal_spec(s: Seq<char>) -> Option<Decimal> {
    let negative = s.len() > 0 && s[0] == '-';
    let body = if negative {
        s.drop_first()
    } else {
        s
    };
    match unsigned_spec(body) {
        Some((d, k)) => Some(Decimal { negative, digits: d as u64, scale: k as u32 }),
        None => None,
    }
}

proof fn lemma_digits_value_bound(s: Seq<char>)
    requires
        all_digits(s),
    ensures
        0 <= digits_value(s) < pow10(s.len()),
    decreases s.len(),
{
    if s.len() > 0 {
        let t = s.drop_last();
        assert(all_digits(t)) by {
            assert forall|i: int| 0 <= i < t.len() implies is_digit(#[trigger] t[i]) by {
                assert(t[i] == s[i]);
            }
        }
        lemma_digits_value_bound(t);
        assert(is_digit(s[s.len() - 1]));
    }
}

proof fn lemma_point_unique(body: Seq<char>, p: int, q: int)
    requires
        point_at(body, p),
        point_at(body, q),
    ensures
        p == q,
{
    if p < q {
        assert(body.take(q)[p] == '.');
    } else if q < p {
        assert(body.take(p)[q] == '.');
    }
}

proof fn lemma_no_numeral(body: Seq<char>, i: int, dot: int, len: int)
    requires
        len == body.len(),
        0 <= i < len,
        0 <= dot,
        !is_digit(body[i]),
        body[i] != '.' || (dot < i && body[dot] == '.'),
    ensures
        unsigned_spec(body) is None,
{
    assert(!all_digits(body));
    assert forall|p: int| !point_at(body, p) by {
        if 0 <= p < body.len() && body[p] == '.' {
            if p == i {
                assert(body.take(p)[dot] == body[dot]);
            } else if p < i {
                assert(body.skip(p + 1)[i - p - 1] == body[i]);
            } else {
                assert(body.take(p)[i] == body[i]);
            }
        }
    }
}

/// Reads a decimal number written as an optional minus sign, digits, and optionally a
/// point and more digits.
pub fn parse_decimal(s: &str) -> (r: Option<Decimal>)
    ensures
        r == decimal_spec(s@),
{
    let n = s.unicode_len();
    let negative = n > 0 && s.get_char(0) == '-';
    let start: usize = if negative {
        1
    } else {
        0
    };
    let ghost body = if negative {
        s@.drop_first()
    } else {
        s@
    };
    assert(body =~= s@.skip(start as int));
    let len = n - start;
    if len == 0 || len > 19 {
        return None;
    }
    // Locate the first point and check that every other character is a digit.
    let mut dot: usize = len;
    let mut i: usize = 0;
    while i < len
        invariant
            n == s@.len(),
            len == n - start,
            negative == (s@.len() > 0 && s@[0] == '-'),
            body == (if negative {
                s@.drop_first()
            } else {
                s@
            }),
            body =~= s@.skip(start as int),
            i <= len,
            dot == len || (dot < i && body[dot as int] == '.'),
            forall|k: int| 0 <= k < i && k != dot ==> is_digit(#[trigger] body[k]),
        decreases len - i,
    {
        let c = s.get_char(start + i);
        assert(c == body[i as int]);
        if c == '.' && dot == len {
            dot = i;
        } else if !('0' <= c && c <= '9') {
            proof {
                lemma_no_numeral(body, i as int, dot as int, len as int);
            }
            return None;
        }
        i = i + 1;
    }
    let ndigits: usize = if dot == len {
        len
    } else {
        len - 1
    };
    if ndigits == 0 || ndigits > 18 {
        proof {
            if dot < len {
                assert(!all_digits(body));
                if body.len() > 1 && exists|p: int| point_at(body, p) {
                    let p = choose|p: int| point_at(body, p);
                    lemma_point_unique(body, p, dot as int);
                }
            }
        }
        return None;
    }
    let ghost digits = if dot == len {
        body
    } else {
        body.take(dot as int) + body.skip(dot + 1)
    };
    assert(digits.len() == ndigits);
    assert(forall|j: int| 0 <= j < ndigits ==> #[trigger] digits[j] == if j < dot {
        body[j]
    } else {
        body[j + 1]
    });
    assert(all_digits(digits));
    let mut value: u64 = 0;
    let mut j: usize = 0;
    while j < ndigits
        invariant
            n == s@.len(),
            len == n - start,
            negative == (s@.len() > 0 && s@[0] == '-'),
            body == (if negative {
                s@.drop_first()
            } else {
                s@
            }),
            body =~= s@.skip(start as int),
            ndigits == digits.len(),
            ndigits <= 18,
            dot <= len,
            start <= 1,
            start + len == n,
            dot == len ==> ndigits == len,
            dot < len ==> ndigits == len - 1,
            forall|j: int| 0 <= j < ndigits ==> #[trigger] digits[j] == if j < dot {
                body[j]
            } else {
                body[j + 1]
            },
            all_digits(digits),
            j <= ndigits,
            value == digits_value(digits.take(j as int)),
        decreases ndigits - j,
    {
        let pos = if j < dot {
            j
        } else {
            j + 1
        };
        let c = s.get_char(start + pos);
        assert(c == digits[j as int]);
        proof {
            assert(digits.take(j + 1).drop_last() =~= digits.take(j as int));
            assert(all_digits(digits.take(j + 1))) by {
                assert forall|k: int| 0 <= k < j + 1 implies is_digit(#[trigger] digits.take(j + 1)[k]) by {
                    assert(digits.take(j + 1)[k] == digits[k]);
                }
            }
            lemma_digits_value_bound(digits.take(j + 1));
            lemma_pow10_bound((j + 1) as nat);
        }
        value = value * 10 + (c as u32 - '0' as u32) as u64;
        j = j + 1;
    }
    proof {
        assert(digits.take(ndigits as int) =~= digits);
        if dot == len {
            assert(all_digits(body));
        } else {
            assert(point_at(body, dot as int)) by {
                assert forall|k: int| 0 <= k < dot implies is_digit(#[trigger] body.take(dot as int)[k]) by {
                    assert(body.take(dot as int)[k] == digits[k]);
                }
                assert forall|k: int| 0 <= k < body.len() - dot - 1 implies is_digit(
                    #[trigger] body.skip(dot + 1)[k],
                ) by {
                    assert(body.skip(dot + 1)[k] == digits[k + dot]);
                }
            }
            assert(!all_digits(body));
            let p = choose|p: int| point_at(body, p);
            lemma_point_unique(body, p, dot as int);
        }
    }
    let scale: u32 = if dot == len {
        0
    } else {
        (len - dot - 1) as u32
    };
    Some(Decimal { negative, digits: value, scale })
}

pub open spec fn trunc_div(a: int, b: int) -> int {
    if a >= 0 {
        a / b
    } else {
        -((-a) / b)
    }
}

/// `d` in units of `10^-e`, truncated toward zero.
pub open spec fn scaled_spec(d: Decimal, e: nat) -> int {
    let m = if d.negative {
        -(d.digits as int)
    } else {
        d.digits as int
    };
    if d.scale <= e {
        m * pow10((e - d.scale) as nat)
    } else {
        trunc_div(m, pow10((d.scale - e) as nat) as int)
    }
}

pub proof fn lemma_pow10_add(a: nat, b: nat)
    ensures
        pow10(a + b) == pow10(a) * pow10(b),
    decreases a,
{
    if a > 0 {
        let a1 = (a - 1) as nat;
        lemma_pow10_add(a1, b);
        assert(a1 + b == (a + b - 1) as nat);
        assert(pow10(a + b) == 10 * pow10(a1 + b));
        assert(pow10(a) == 10 * pow10(a1));
        let x = pow10(a1);
        let y = pow10(b);
        assert(pow10(a + b) == pow10(a) * pow10(b)) by (nonlinear_arith)
            requires
                pow10(a + b) == 10 * (x * y),
                pow10(a) == 10 * x,
                y == pow10(b),
        ;
    } else {
        assert(pow10(a) == 1);
        assert(a + b == b);
    }
}

/// Scaling a decimal to units of `10^-e` truncates it: the scaled value, read back in
/// those units, is the decimal cut after its `e`-th fractional digit.
pub proof fn lemma_scaled_truncates(d: Decimal, e: nat)
    ensures
        ({
            let s = scaled_spec(d, e);
            let mag = if s >= 0 {
                s
            } else {
                -s
            };
            &&& mag * pow10(d.scale as nat) <= d.digits * pow10(e)
            &&& d.digits * pow10(e) < (mag + 1) * pow10(d.scale as nat)
            &&& (d.negative ==> s <= 0)
            &&& (!d.negative ==> s >= 0)
        }),
{
    let k = d.scale as nat;
    let x = d.digits as int;
    lemma_pow10_positive(k);
    lemma_pow10_positive(e);
    let m = if d.negative {
        -x
    } else {
        x
    };
    if k <= e {
        let f = pow10((e - k) as nat) as int;
        lemma_pow10_positive((e - k) as nat);
        assert((-x) * f == -(x * f) && x * f >= 0) by (nonlinear_arith)
            requires
                x >= 0,
                f >= 1,
        ;
        assert(scaled_spec(d, e) == m * f);
    } else {
        let f = pow10((k - e) as nat) as int;
        lemma_pow10_positive((k - e) as nat);
        assert(x / f >= 0) by (nonlinear_arith)
            requires
                x >= 0,
                f >= 1,
        ;
        if d.negative && x > 0 {
            assert(scaled_spec(d, e) == -(x / f));
        } else {
            assert(scaled_spec(d, e) == x / f) by {
                if d.negative {
                    assert(x == 0);
                    assert(0int / f == 0) by (nonlinear_arith)
                        requires
                            f >= 1,
                    ;
                }
            }
        }
    }
    if k <= e {
        let f = pow10((e - k) as nat);
        lemma_pow10_add((e - k) as nat, k);
        lemma_pow10_positive((e - k) as nat);
        assert(x * f >= 0) by (nonlinear_arith)
            requires
                x >= 0,
                f >= 1,
        ;
        assert((x * f) * pow10(k) == x * pow10(e)) by (nonlinear_arith)
            requires
                pow10(e) == f * pow10(k),
        ;
        assert(x * pow10(e) < (x * f + 1) * pow10(k)) by (nonlinear_arith)
            requires
                pow10(k) >= 1,
                (x * f) * pow10(k) == x * pow10(e),
        ;
    } else {
        let f = pow10((k - e) as nat) as int;
        lemma_pow10_add((k - e) as nat, e);
        lemma_pow10_positive((k - e) as nat);
        let q = x / f;
        assert(q * f <= x < (q + 1) * f && q >= 0) by (nonlinear_arith)
            requires
                f >= 1,
                x >= 0,
                q == x / f,
        ;
        assert(q * pow10(k) <= x * pow10(e) < (q + 1) * pow10(k)) by (nonlinear_arith)
            requires
                pow10(k) == f * pow10(e),
                pow10(e) >= 1,
                q * f <= x,
                x < (q + 1) * f,
        ;
    }
}

/// `d` in units of `10^-e`, truncated toward zero; none when the magnitude passes `bound`.
pub fn to_scaled(d: Decimal, e: u32, bound: u64) -> (r: Option<i64>)
    requires
        e <= 18,
        bound <= i64::MAX,
    ensures
        ({
            let v = scaled_spec(d, e as nat);
            match r {
                Some(x) => x == v && -(bound as int) <= v <= bound,
                None => v < -(bound as int) || v > bound,
            }
        }),
{
    proof {
        lemma_pow10_bound(0);
    }
    let mag: u64 = if d.scale <= e {
        let f = pow10_exec(e - d.scale);
        proof {
            lemma_pow10_bound((e - d.scale) as nat);
            lemma_pow10_positive((e - d.scale) as nat);
        }
        if d.digits > 0 && f > bound / d.digits {
            proof {
                assert(d.digits as nat * f > bound) by (nonlinear_arith)
                    requires
                        d.digits >= 1,
                        f > bound / d.digits,
                ;
                let x = d.digits as int;
                let fi = f as int;
                assert((-x) * fi == -(x * fi)) by (nonlinear_arith);
            }
            return None;
        }
        proof {
            assert(d.digits as nat * f <= bound) by (nonlinear_arith)
                requires
                    d.digits == 0 || f <= bound / d.digits,
            ;
        }
        d.digits * f
    } else if d.scale - e > 19 {
        proof {
            lemma_digits_small(d.digits, (d.scale - e) as nat);
        }
        0
    } else {
        proof {
            lemma_pow10_positive((d.scale - e) as nat);
        }
        let f = pow10_exec(d.scale - e);
        d.digits / f
    };
    if mag > bound {
        return None;
    }
    proof {
        let x = d.digits as int;
        if d.scale > e {
            lemma_pow10_positive((d.scale - e) as nat);
            assert(mag == x / pow10((d.scale - e) as nat) as int);
            if d.negative && x == 0 {
                assert(0int / (pow10((d.scale - e) as nat) as int) == 0) by (nonlinear_arith)
                    requires
                        pow10((d.scale - e) as nat) >= 1,
                ;
            }
        } else {
            let fi = pow10((e - d.scale) as nat) as int;
            assert(mag == x * fi);
            assert((-x) * fi == -(x * fi)) by (nonlinear_arith);
        }
    }
    if d.negative {
        Some(-(mag as i64))
    } else {
        Some(mag as i64)
    }
}

proof fn lemma_digits_small(x: u64, n: nat)
    requires
        n > 19,
    ensures
        x as int / pow10(n) as int == 0,
{
    lemma_pow10_monotone(20, n);
    reveal_with_fuel(pow10, 21);
    assert(pow10(20) > u64::MAX);
    lemma_pow10_positive(n);
    assert(x as int / pow10(n) as int == 0) by (nonlinear_arith)
        requires
            x < pow10(n),
            x >= 0,
    ;
}

proof fn lemma_pow10_monotone(a: nat, b: nat)
    requires
        a <= b,
    ensures
        pow10(a) <= pow10(b),
    decreases b,
{
    if a < b {
        lemma_pow10_monotone(a, (b - 1) as nat);
        lemma_pow10_positive((b - 1) as nat);
    }
}


/// Magnitude of `d` in units of `10^-e`, rounded to the nearest unit, halves up.
pub open spec fn rounded_mag(d: Decimal, e: nat) -> int {
    if d.scale <= e {
        d.digits * pow10((e - d.scale) as nat)
    } else {
        let f = pow10((d.scale - e) as nat) as int;
        (d.digits + f / 2) / f
    }
}

/// `d` in units of `10^-e`, rounded to the nearest unit, halves away from zero.
pub open spec fn rounded_spec(d: Decimal, e: nat) -> int {
    if d.negative {
        -rounded_mag(d, e)
    } else {
        rounded_mag(d, e)
    }
}

proof fn lemma_pow10_even(j: nat)
    requires
        j >= 1,
    ensures
        pow10(j) % 2 == 0,
        (pow10(j) as int / 2) * 2 == pow10(j),
{
    let p = pow10((j - 1) as nat);
    assert(pow10(j) == 10 * p);
    assert((10 * p) % 2 == 0 && ((10 * p) / 2) * 2 == 10 * p) by (nonlinear_arith);
}

/// Scaling a decimal to units of `10^-e` rounds it to the nearest unit: the scaled value,
/// read back in those units, is within half a unit of the decimal, and has its sign.
pub proof fn lemma_rounded_nearest(d: Decimal, e: nat)
    ensures
        ({
            let m = rounded_mag(d, e);
            let k = pow10(d.scale as nat);
            &&& m >= 0
            &&& 2 * (m * k) <= 2 * (d.digits * pow10(e)) + k
            &&& 2 * (d.digits * pow10(e)) < (2 * m + 1) * k
            &&& rounded_spec(d, e) == if d.negative {
                -m
            } else {
                m
            }
        }),
{
    let k = pow10(d.scale as nat) as int;
    let x = d.digits as int;
    let pe = pow10(e) as int;
    lemma_pow10_positive(d.scale as nat);
    lemma_pow10_positive(e);
    if d.scale <= e {
        let f = pow10((e - d.scale) as nat) as int;
        lemma_pow10_add((e - d.scale) as nat, d.scale as nat);
        lemma_pow10_positive((e - d.scale) as nat);
        assert(pe == f * k);
        let m = rounded_mag(d, e);
        assert(m == x * f);
        assert(m >= 0 && 2 * (m * k) <= 2 * (x * pe) + k && 2 * (x * pe) < (2 * m + 1) * k)
            by (nonlinear_arith)
            requires
                x >= 0,
                f >= 1,
                k >= 1,
                pe == f * k,
                m == x * f,
        ;
    } else {
        let j = (d.scale - e) as nat;
        let f = pow10(j) as int;
        lemma_pow10_add(j, e);
        lemma_pow10_positive(j);
        lemma_pow10_even(j);
        let h = f / 2;
        let q = (x + h) / f;
        assert(q * f <= x + h < (q + 1) * f && q >= 0) by (nonlinear_arith)
            requires
                f >= 1,
                x >= 0,
                h >= 0,
                q == (x + h) / f,
        ;
        assert(2 * (q * k) <= 2 * (x * pe) + k && 2 * (x * pe) < (2 * q + 1) * k) by (nonlinear_arith)
            requires
                k == f * pe,
                pe >= 1,
                h * 2 == f,
                q * f <= x + h,
                x + h < (q + 1) * f,
        ;
        assert(rounded_mag(d, e) == q);
    }
}

/// `d` in units of `10^-e`, rounded to the nearest unit with halves away from zero; none
/// when the magnitude passes `bound`.
pub fn to_rounded(d: Decimal, e: u32, bound: u64) -> (r: Option<i64>)
    requires
        e <= 18,
        bound <= i64::MAX,
    ensures
        ({
            let v = rounded_spec(d, e as nat);
            match r {
                Some(x) => x == v && -(bound as int) <= v <= bound,
                None => v < -(bound as int) || v > bound,
            }
        }),
{
    proof {
        lemma_rounded_nearest(d, e as nat);
    }
    let mag: u64 = if d.scale <= e {
        let f = pow10_exec(e - d.scale);
        proof {
            lemma_pow10_bound((e - d.scale) as nat);
        }
        if d.digits > 0 && f > bound / d.digits {
            proof {
                assert(d.digits as nat * f > bound) by (nonlinear_arith)
                    requires
                        d.digits >= 1,
                        f > bound / d.digits,
                ;
            }
            return None;
        }
        proof {
            assert(d.digits as nat * f <= bound) by (nonlinear_arith)
                requires
                    d.digits == 0 || f <= bound / d.digits,
            ;
        }
        d.digits * f
    } else if d.scale - e > 19 {
        proof {
            let j = (d.scale - e) as nat;
            let f = pow10(j) as int;
            lemma_pow10_monotone(20, j);
            reveal_with_fuel(pow10, 21);
            lemma_pow10_even(j);
            assert((d.digits as int + f / 2) / f == 0) by (nonlinear_arith)
                requires
                    f >= 100_000_000_000_000_000_000,
                    (f / 2) * 2 == f,
                    d.digits <= u64::MAX,
                    d.digits >= 0,
            ;
        }
        0
    } else {
        proof {
            lemma_pow10_positive((d.scale - e) as nat);
        }
        let f = pow10_exec(d.scale - e);
        let m: u128 = (d.digits as u128 + (f / 2) as u128) / f as u128;
        proof {
            assert(m <= d.digits as int + (f / 2) as int) by (nonlinear_arith)
                requires
                    f >= 1,
                    m == (d.digits as int + (f / 2) as int) / (f as int),
            ;
        }
        if m > bound as u128 {
            return None;
        }
        m as u64
    };
    if mag > bound {
        return None;
    }
    if d.negative {
        Some(-(mag as i64))
    } else {
        Some(mag as i64)
    }
}

} // verus!
