//! Exact decimal arithmetic for the formatters.
//!
//! The vendor tools report temperature and power draw as decimal strings
//! such as `70` or `12.7`. The formatters need the floor of such a value
//! and the floor of its Celsius-to-Fahrenheit conversion. Both are computed
//! here exactly, over a numerator/scale model of the decimal string, with
//! no rounding along the way.

use vstd::arithmetic::div_mod::{
    lemma_fundamental_div_mod, lemma_fundamental_div_mod_converse, lemma_multiply_divide_lt,
};
use vstd::prelude::*;
use vstd::string::*;

verus! {

/// True when `c` is an ASCII decimal digit.
pub open spec fn is_digit(c: char) -> bool {
    48 <= c as u32 <= 57
}

/// Numeric value of a digit character.
pub open spec fn digit_val(c: char) -> nat
    recommends
        is_digit(c),
{
    (c as u32 - 48) as nat
}

/// True when every character of `s` is a decimal digit.
pub open spec fn all_digits(s: Seq<char>) -> bool {
    forall|i: int| 0 <= i < s.len() ==> is_digit(s[i])
}

/// Value of a digit string read in base ten; the empty string reads as 0.
pub open spec fn digits_val(s: Seq<char>) -> nat
    decreases s.len(),
{
    if s.len() == 0 {
        0
    } else {
        digits_val(s.drop_last()) * 10 + digit_val(s.last())
    }
}

/// Ten to the `k`.
pub open spec fn pow10(k: nat) -> nat
    decreases k,
{
    if k == 0 {
        1nat
    } else {
        10 * pow10((k - 1) as nat)
    }
}

pub proof fn lemma_pow10_pos(k: nat)
    ensures
        pow10(k) >= 1,
    decreases k,
{
    if k > 0 {
        lemma_pow10_pos((k - 1) as nat);
    }
}

pub proof fn lemma_pow10_mono(a: nat, b: nat)
    requires
        a <= b,
    ensures
        pow10(a) <= pow10(b),
    decreases b,
{
    if a < b {
        lemma_pow10_mono(a, (b - 1) as nat);
        lemma_pow10_pos((b - 1) as nat);
    }
}

/// A digit string of length `n` reads as a value below ten to the `n`.
pub proof fn lemma_digits_val_bound(s: Seq<char>)
    requires
        all_digits(s),
    ensures
        digits_val(s) < pow10(s.len()),
    decreases s.len(),
{
    if s.len() > 0 {
        assert(all_digits(s.drop_last()));
        assert(is_digit(s.last()));
        lemma_digits_val_bound(s.drop_last());
    }
}

/// Appending one digit multiplies the value by ten and adds the digit.
pub proof fn lemma_digits_val_push(s: Seq<char>, c: char)
    ensures
        digits_val(s.push(c)) == digits_val(s) * 10 + digit_val(c),
{
    assert(s.push(c).drop_last() =~= s);
    assert(s.push(c).last() == c);
}

// --- the decimal grammar: [+-]? digits [ '.' digits ] ----------------------
/// Length of the sign prefix: one for a leading `+` or `-`, else zero.
pub open spec fn sign_len(s: Seq<char>) -> int {
    if s.len() > 0 && (s[0] == '+' || s[0] == '-') {
        1
    } else {
        0
    }
}

/// The sign a decimal string denotes: -1 for a leading `-`, else 1.
pub open spec fn dec_sign(s: Seq<char>) -> int {
    if s.len() > 0 && s[0] == '-' {
        -1
    } else {
        1
    }
}

/// The string with any sign prefix removed.
pub open spec fn dec_body(s: Seq<char>) -> Seq<char> {
    s.subrange(sign_len(s), s.len() as int)
}

/// Length of the longest digit prefix of `s`.
pub open spec fn digit_prefix_len(s: Seq<char>) -> int
    decreases s.len(),
{
    if s.len() == 0 || !is_digit(s[0]) {
        0
    } else {
        1 + digit_prefix_len(s.subrange(1, s.len() as int))
    }
}

/// The digit prefix is within bounds, consists of digits, and is maximal.
pub proof fn lemma_digit_prefix(s: Seq<char>)
    ensures
        0 <= digit_prefix_len(s) <= s.len(),
        forall|i: int| 0 <= i < digit_prefix_len(s) ==> is_digit(s[i]),
        digit_prefix_len(s) < s.len() ==> !is_digit(s[digit_prefix_len(s)]),
    decreases s.len(),
{
    if s.len() > 0 && is_digit(s[0]) {
        let st = s.subrange(1, s.len() as int);
        lemma_digit_prefix(st);
        assert forall|i: int| 0 <= i < digit_prefix_len(s) implies is_digit(s[i]) by {
            if i >= 1 {
                assert(is_digit(st[i - 1]));
                assert(st[i - 1] == s[i]);
            }
        }
        if digit_prefix_len(s) < s.len() {
            assert(s[digit_prefix_len(s)] == st[digit_prefix_len(st)]);
        }
    }
}

/// The integer digits of a decimal string: the digit prefix of its body.
pub open spec fn dec_int_digits(s: Seq<char>) -> Seq<char> {
    let b = dec_body(s);
    b.subrange(0, digit_prefix_len(b))
}

/// What follows the integer digits: empty, or a dot and the fraction.
pub open spec fn dec_rest(s: Seq<char>) -> Seq<char> {
    let b = dec_body(s);
    b.subrange(digit_prefix_len(b), b.len() as int)
}

/// The fraction digits of a decimal string (empty when there is no dot).
pub open spec fn dec_frac_digits(s: Seq<char>) -> Seq<char> {
    let r = dec_rest(s);
    if r.len() > 0 {
        r.subrange(1, r.len() as int)
    } else {
        Seq::empty()
    }
}

/// True when `s` is a well-formed decimal: an optional sign, then digits,
/// then optionally a dot and digits, with at least one digit in all.
pub open spec fn is_decimal(s: Seq<char>) -> bool {
    let r = dec_rest(s);
    &&& (r.len() == 0 || (r[0] == '.' && all_digits(r.subrange(1, r.len() as int))))
    &&& dec_int_digits(s).len() + dec_frac_digits(s).len() >= 1
}

/// A well-formed decimal whose integer and fraction parts each hold at most
/// fifteen digits; only such strings are parsed by the executable code.
pub open spec fn dec_in_range(s: Seq<char>) -> bool {
    &&& is_decimal(s)
    &&& dec_int_digits(s).len() <= 15
    &&& dec_frac_digits(s).len() <= 15
}

/// The value of `s` as the exact rational `dec_numerator(s) / pow10(dec_scale(s))`.
pub open spec fn dec_numerator(s: Seq<char>) -> int {
    dec_sign(s) * (digits_val(dec_int_digits(s)) * pow10(dec_frac_digits(s).len())
        + digits_val(dec_frac_digits(s)))
}

/// The number of fraction digits of `s`.
pub open spec fn dec_scale(s: Seq<char>) -> nat {
    dec_frac_digits(s).len()
}

/// The floor of the value `s` denotes.
pub open spec fn dec_floor(s: Seq<char>) -> int {
    dec_numerator(s) / pow10(dec_scale(s)) as int
}

/// The floor of the Fahrenheit conversion `v * 9/5 + 32` of the Celsius
/// value `v` that `s` denotes.
pub open spec fn dec_fahrenheit(s: Seq<char>) -> int {
    (9 * dec_numerator(s) + 160 * pow10(dec_scale(s))) / (5 * pow10(dec_scale(s)) as int)
}

/// A run of digits, all of them, followed by the end or a non-digit, is the
/// digit prefix.
pub proof fn lemma_digit_prefix_unique(s: Seq<char>, l: int)
    requires
        0 <= l <= s.len(),
        forall|i: int| 0 <= i < l ==> is_digit(s[i]),
        l < s.len() ==> !is_digit(s[l]),
    ensures
        digit_prefix_len(s) == l,
    decreases s.len(),
{
    if s.len() > 0 && is_digit(s[0]) {
        let st = s.subrange(1, s.len() as int);
        assert(forall|i: int| 0 <= i < st.len() ==> st[i] == s[i + 1]);
        lemma_digit_prefix_unique(st, l - 1);
    }
}

/// A decimal string taken apart: its sign and the values and width of its
/// integer and fraction digit runs.
pub struct Decimal {
    pub negative: bool,
    pub int_part: u64,
    pub frac_part: u64,
    pub frac_len: u64,
}

/// `d` is the decomposition of the decimal string `s`.
pub open spec fn decimal_matches(d: Decimal, s: Seq<char>) -> bool {
    &&& d.negative == (dec_sign(s) == -1)
    &&& d.int_part == digits_val(dec_int_digits(s))
    &&& d.frac_part == digits_val(dec_frac_digits(s))
    &&& d.frac_len == dec_frac_digits(s).len()
}

/// Measures the digit run of `s` that starts at `from` and, when it has at
/// most fifteen digits, reads its value.
fn scan_digits(s: &str, from: usize) -> (r: (usize, Option<u64>))
    requires
        from <= s@.len(),
    ensures
        ({
            let tail = s@.subrange(from as int, s@.len() as int);
            let l = digit_prefix_len(tail);
            &&& r.0 == l
            &&& match r.1 {
                Some(v) => l <= 15 && v == digits_val(tail.subrange(0, l)),
                None => l > 15,
            }
        }),
{
    let ghost tail = s@.subrange(from as int, s@.len() as int);
    let n: usize = s.unicode_len();
    let mut i: usize = from;
    let mut acc: u64 = 0;
    let mut count: usize = 0;
    loop
        invariant
            from <= i <= n,
            n == s@.len(),
            tail == s@.subrange(from as int, s@.len() as int),
            count == i - from,
            forall|j: int| 0 <= j < count ==> is_digit(tail[j]),
            count <= 15 ==> acc == digits_val(tail.subrange(0, count as int)) && acc < pow10(
                count as nat,
            ),
        ensures
            from <= i <= n,
            count == i - from,
            forall|j: int| 0 <= j < count ==> is_digit(tail[j]),
            i < n ==> !is_digit(tail[count as int]),
            count <= 15 ==> acc == digits_val(tail.subrange(0, count as int)),
        decreases n - i,
    {
        if i == n {
            break ;
        }
        let c: char = s.get_char(i);
        let u: u32 = c as u32;
        if !(48 <= u && u <= 57) {
            proof {
                assert(tail[count as int] == s@[i as int]);
            }
            break ;
        }
        proof {
            assert(tail[count as int] == s@[i as int]);
            if count < 15 {
                lemma_pow10_mono((count + 1) as nat, 15nat);
                reveal_with_fuel(pow10, 16);
                assert(pow10(15nat) == 1000000000000000);
                lemma_digits_val_push(tail.subrange(0, count as int), tail[count as int]);
                assert(tail.subrange(0, (count + 1) as int) =~= tail.subrange(
                    0,
                    count as int,
                ).push(tail[count as int]));
            }
        }
        if count < 15 {
            acc = acc * 10 + ((u - 48) as u64);
        }
        count += 1;
        i += 1;
    }
    proof {
        lemma_digit_prefix_unique(tail, count as int);
    }
    if count > 15 {
        (count, None)
    } else {
        (count, Some(acc))
    }
}

/// Takes a decimal string apart per the grammar: `None` when `s` is not a
/// well-formed decimal or a digit run exceeds fifteen digits.
pub fn parse_decimal(s: &str) -> (r: Option<Decimal>)
    ensures
        match r {
            Some(d) => dec_in_range(s@) && decimal_matches(d, s@),
            None => !dec_in_range(s@),
        },
{
    let n: usize = s.unicode_len();
    let mut pos: usize = 0;
    let mut negative: bool = false;
    if n > 0 {
        let c0: char = s.get_char(0);
        if c0 == '-' {
            negative = true;
            pos = 1;
        } else if c0 == '+' {
            pos = 1;
        }
    }
    proof {
        assert(pos == sign_len(s@));
        assert(negative == (dec_sign(s@) == -1));
    }
    let ghost body = dec_body(s@);
    let (int_len, int_val_opt) = scan_digits(s, pos);
    proof {
        assert(s@.subrange(pos as int, n as int) =~= body);
        lemma_digit_prefix(body);
    }
    let after_int: usize = pos + int_len;
    if after_int == n {
        // No fraction: the rest of the body is empty.
        proof {
            assert(dec_rest(s@) =~= Seq::<char>::empty());
            assert(dec_frac_digits(s@) =~= Seq::<char>::empty());
        }
        if int_len == 0 {
            return None;
        }
        match int_val_opt {
            None => None,
            Some(iv) => Some(
                Decimal { negative, int_part: iv, frac_part: 0, frac_len: 0 },
            ),
        }
    } else {
        proof {
            assert(dec_rest(s@)[0] == s@[after_int as int]);
        }
        let c: char = s.get_char(after_int);
        if c != '.' {
            return None;
        }
        let (frac_len, frac_val_opt) = scan_digits(s, after_int + 1);
        let ghost ftail = s@.subrange((after_int + 1) as int, n as int);
        proof {
            assert(dec_frac_digits(s@) =~= ftail);
            lemma_digit_prefix(ftail);
        }
        if after_int + 1 + frac_len != n {
            // A non-digit sits inside the fraction part.
            proof {
                assert(!is_digit(dec_frac_digits(s@)[frac_len as int]));
            }
            return None;
        }
        proof {
            assert(ftail.subrange(0, frac_len as int) =~= ftail);
        }
        if int_len == 0 && frac_len == 0 {
            return None;
        }
        match (int_val_opt, frac_val_opt) {
            (Some(iv), Some(fv)) => Some(
                Decimal { negative, int_part: iv, frac_part: fv, frac_len: frac_len as u64 },
            ),
            _ => None,
        }
    }
}

/// Bounds that the parts of an in-range decimal obey.
proof fn lemma_decimal_bounds(s: Seq<char>)
    requires
        dec_in_range(s),
    ensures
        all_digits(dec_int_digits(s)),
        all_digits(dec_frac_digits(s)),
        digits_val(dec_int_digits(s)) < 1000000000000000,
        digits_val(dec_frac_digits(s)) < pow10(dec_scale(s)),
        1 <= pow10(dec_scale(s)) <= 1000000000000000,
{
    let b = dec_body(s);
    lemma_digit_prefix(b);
    assert(all_digits(dec_int_digits(s)));
    let r = dec_rest(s);
    if r.len() > 0 {
        assert(all_digits(r.subrange(1, r.len() as int)));
    }
    lemma_digits_val_bound(dec_int_digits(s));
    lemma_digits_val_bound(dec_frac_digits(s));
    lemma_pow10_mono(dec_int_digits(s).len(), 15nat);
    lemma_pow10_mono(dec_scale(s), 15nat);
    lemma_pow10_pos(dec_scale(s));
    reveal_with_fuel(pow10, 16);
    assert(pow10(15nat) == 1000000000000000);
}

/// The floor of the decimal value that `s` denotes; `None` when `s` is not
/// an in-range decimal.
pub fn dec_floor_str(s: &str) -> (r: Option<i64>)
    ensures
        match r {
            Some(v) => dec_in_range(s@) && v as int == dec_floor(s@),
            None => !dec_in_range(s@),
        },
{
    match parse_decimal(s) {
        None => None,
        Some(d) => {
            proof {
                lemma_decimal_bounds(s@);
            }
            let v: i64 = if !d.negative {
                d.int_part as i64
            } else if d.frac_part == 0 {
                -(d.int_part as i64)
            } else {
                -(d.int_part as i64) - 1
            };
            proof {
                let iv = d.int_part as int;
                let f = d.frac_part as int;
                let p = pow10(dec_scale(s@)) as int;
                let num = dec_numerator(s@);
                assert(iv * p + f < p * 1000000000000001) by (nonlinear_arith)
                    requires
                        iv < 1000000000000000,
                        0 <= f < p,
                        p >= 1,
                ;
                if dec_sign(s@) == 1 {
                    lemma_fundamental_div_mod_converse(num, p, iv, f);
                } else if f == 0 {
                    assert(num == (-iv) * p + 0) by (nonlinear_arith)
                        requires
                            num == -1 * (iv * p + f),
                            f == 0,
                    ;
                    lemma_fundamental_div_mod_converse(num, p, -iv, 0);
                } else {
                    assert(num == (-iv - 1) * p + (p - f)) by (nonlinear_arith)
                        requires
                            num == -1 * (iv * p + f),
                    ;
                    lemma_fundamental_div_mod_converse(num, p, -iv - 1, p - f);
                }
            }
            Some(v)
        },
    }
}

/// Ten to the `k`, computed.
pub fn pow10_u64(k: u64) -> (r: u64)
    requires
        k <= 15,
    ensures
        r == pow10(k as nat),
{
    let mut r: u64 = 1;
    let mut i: u64 = 0;
    while i < k
        invariant
            i <= k <= 15,
            r == pow10(i as nat),
        decreases k - i,
    {
        proof {
            lemma_pow10_mono((i + 1) as nat, 15nat);
            reveal_with_fuel(pow10, 16);
            assert(pow10(15nat) == 1000000000000000);
        }
        r = r * 10;
        i = i + 1;
    }
    r
}

/// The floor of `v * 9/5 + 32` where `v` is the Celsius value that `s`
/// denotes; `None` when `s` is not an in-range decimal.
pub fn dec_fahrenheit_str(s: &str) -> (r: Option<i64>)
    ensures
        match r {
            Some(v) => dec_in_range(s@) && v as int == dec_fahrenheit(s@),
            None => !dec_in_range(s@),
        },
{
    match parse_decimal(s) {
        None => None,
        Some(d) => {
            proof {
                lemma_decimal_bounds(s@);
            }
            let p: u64 = pow10_u64(d.frac_len);
            proof {
                assert((d.int_part as int) * (p as int) <= 1000000000000000
                    * 1000000000000000) by (nonlinear_arith)
                    requires
                        d.int_part < 1000000000000000,
                        0 <= p <= 1000000000000000,
                ;
            }
            let pw: u128 = p as u128;
            let mag: u128 = (d.int_part as u128) * pw + (d.frac_part as u128);
            let s9: u128 = 9 * mag;
            let t: u128 = 160 * pw;
            let den: u128 = 5 * pw;
            let ghost iv = d.int_part as int;
            let ghost f = d.frac_part as int;
            let ghost pp = p as int;
            let ghost num = dec_numerator(s@);
            let ghost x = 9 * num + 160 * pp;
            proof {
                // The quotient is bounded by 2e15 whatever the sign.
                assert(s9 + t < den * 2000000000000000 && s9 < den * 2000000000000000)
                    by (nonlinear_arith)
                    requires
                        s9 == 9 * (iv * pp + f),
                        t == 160 * pp,
                        den == 5 * pp,
                        iv < 1000000000000000,
                        0 <= f < pp,
                        pp >= 1,
                ;
            }
            let v: i64 = if !d.negative {
                proof {
                    lemma_multiply_divide_lt((s9 + t) as int, den as int, 2000000000000000);
                }
                ((s9 + t) / den) as i64
            } else if s9 <= t {
                proof {
                    lemma_multiply_divide_lt((t - s9) as int, den as int, 2000000000000000);
                    assert(dec_sign(s@) == -1);
                    assert(num == dec_sign(s@) * (iv * pp + f));
                    assert(num == -(iv * pp + f));
                    assert(s9 as int == 9 * (iv * pp + f));
                    assert(t as int == 160 * pp);
                    assert(x == (t - s9) as int);
                }
                ((t - s9) / den) as i64
            } else {
                let m: u128 = s9 - t;
                let q: u128 = m / den;
                let rem: u128 = m % den;
                proof {
                    lemma_multiply_divide_lt(m as int, den as int, 2000000000000000);
                    lemma_fundamental_div_mod(m as int, den as int);
                    assert(x == -1 * (m as int));
                    if rem == 0 {
                        assert(x == (-(q as int)) * (den as int) + 0) by (nonlinear_arith)
                            requires
                                x == -1 * (m as int),
                                m as int == (den as int) * (q as int) + (rem as int),
                                rem == 0,
                        ;
                        lemma_fundamental_div_mod_converse(x, den as int, -(q as int), 0);
                    } else {
                        assert(x == (-(q as int) - 1) * (den as int) + ((den - rem) as int))
                            by (nonlinear_arith)
                            requires
                                x == -1 * (m as int),
                                m as int == (den as int) * (q as int) + (rem as int),
                                0 < rem < den,
                        ;
                        lemma_fundamental_div_mod_converse(
                            x,
                            den as int,
                            -(q as int) - 1,
                            (den - rem) as int,
                        );
                    }
                }
                if rem == 0 {
                    -(q as i64)
                } else {
                    -(q as i64) - 1
                }
            };
            Some(v)
        },
    }
}

// --- rendering integers back to strings -------------------------------------
/// The character for the digit `d`.
pub open spec fn digit_char(d: int) -> char {
    if d == 0 {
        '0'
    } else if d == 1 {
        '1'
    } else if d == 2 {
        '2'
    } else if d == 3 {
        '3'
    } else if d == 4 {
        '4'
    } else if d == 5 {
        '5'
    } else if d == 6 {
        '6'
    } else if d == 7 {
        '7'
    } else if d == 8 {
        '8'
    } else {
        '9'
    }
}

/// Base-ten rendering of `n`, without leading zeros (`0` renders as "0").
pub open spec fn nat_repr(n: nat) -> Seq<char>
    decreases n,
{
    if n < 10 {
        seq![digit_char(n as int)]
    } else {
        nat_repr(n / 10) + seq![digit_char((n % 10) as int)]
    }
}

/// Base-ten rendering of `n`, with a leading `-` when it is negative.
pub open spec fn int_repr(n: int) -> Seq<char> {
    if n >= 0 {
        nat_repr(n as nat)
    } else {
        seq!['-'] + nat_repr((-n) as nat)
    }
}

/// The one-character string for the digit `d`.
fn digit_str(d: u64) -> (r: &'static str)
    requires
        d <= 9,
    ensures
        r@ == seq![digit_char(d as int)],
{
    if d == 0 {
        proof {
            reveal_strlit("0");
            assert("0"@ =~= seq![digit_char(0)]);
        }
        "0"
    } else if d == 1 {
        proof {
            reveal_strlit("1");
            assert("1"@ =~= seq![digit_char(1)]);
        }
        "1"
    } else if d == 2 {
        proof {
            reveal_strlit("2");
            assert("2"@ =~= seq![digit_char(2)]);
        }
        "2"
    } else if d == 3 {
        proof {
            reveal_strlit("3");
            assert("3"@ =~= seq![digit_char(3)]);
        }
        "3"
    } else if d == 4 {
        proof {
            reveal_strlit("4");
            assert("4"@ =~= seq![digit_char(4)]);
        }
        "4"
    } else if d == 5 {
        proof {
            reveal_strlit("5");
            assert("5"@ =~= seq![digit_char(5)]);
        }
        "5"
    } else if d == 6 {
        proof {
            reveal_strlit("6");
            assert("6"@ =~= seq![digit_char(6)]);
        }
        "6"
    } else if d == 7 {
        proof {
            reveal_strlit("7");
            assert("7"@ =~= seq![digit_char(7)]);
        }
        "7"
    } else if d == 8 {
        proof {
            reveal_strlit("8");
            assert("8"@ =~= seq![digit_char(8)]);
        }
        "8"
    } else {
        proof {
            reveal_strlit("9");
            assert("9"@ =~= seq![digit_char(9)]);
        }
        "9"
    }
}

/// Renders `n` in base ten.
pub fn u64_to_string(n: u64) -> (s: String)
    ensures
        s@ == nat_repr(n as nat),
    decreases n,
{
    if n < 10 {
        digit_str(n).to_owned()
    } else {
        let mut s: String = u64_to_string(n / 10);
        s.append(digit_str(n % 10));
        s
    }
}

/// Renders `n` in base ten, with a leading `-` when it is negative.
pub fn i64_to_string(n: i64) -> (s: String)
    ensures
        s@ == int_repr(n as int),
{
    if n >= 0 {
        u64_to_string(n as u64)
    } else {
        let mag: u64 = (-(n as i128)) as u64;
        let mut s: String = String::from_str("-");
        let digits: String = u64_to_string(mag);
        s.append(digits.as_str());
        proof {
            reveal_strlit("-");
            assert(s@ =~= seq!['-'] + nat_repr((-(n as int)) as nat));
        }
        s
    }
}

} // verus!
