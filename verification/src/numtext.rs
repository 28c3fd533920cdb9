//! Reading numbers out of text and rendering them back.
//!
//! Number tokens are runs of digits and dots, optionally preceded by a
//! minus sign when they came out of an earlier reduction.  A malformed
//! token (no digit, or more than one dot) reads as zero, as the
//! evaluators demand.

use vstd::prelude::*;

verus! {

use crate::dec::{Dec, dec_wf, spec_mk, spec_zero, mk_dec, BILLION, MAG_SAT};

/// Digit value of a character; non-digits count as zero.
pub open spec fn digit_val(c: char) -> int {
    if c == '0' {
        0
    } else if c == '1' {
        1
    } else if c == '2' {
        2
    } else if c == '3' {
        3
    } else if c == '4' {
        4
    } else if c == '5' {
        5
    } else if c == '6' {
        6
    } else if c == '7' {
        7
    } else if c == '8' {
        8
    } else if c == '9' {
        9
    } else {
        0
    }
}

/// Whether `c` is a decimal digit.
pub open spec fn spec_is_digit(c: char) -> bool {
    c == '0' || c == '1' || c == '2' || c == '3' || c == '4' || c == '5' || c == '6' || c == '7'
        || c == '8' || c == '9'
}

/// Executable mirror of [`spec_is_digit`].
pub fn is_digit_ch(c: char) -> (r: bool)
    ensures
        r == spec_is_digit(c),
{
    c == '0' || c == '1' || c == '2' || c == '3' || c == '4' || c == '5' || c == '6' || c == '7'
        || c == '8' || c == '9'
}

/// Executable mirror of [`digit_val`].
pub fn digit_of(c: char) -> (r: u128)
    ensures
        r as int == digit_val(c),
{
    if c == '0' {
        0
    } else if c == '1' {
        1
    } else if c == '2' {
        2
    } else if c == '3' {
        3
    } else if c == '4' {
        4
    } else if c == '5' {
        5
    } else if c == '6' {
        6
    } else if c == '7' {
        7
    } else if c == '8' {
        8
    } else if c == '9' {
        9
    } else {
        0
    }
}

/// Value of the digits of `s[i..]` read most significant first, on top
/// of `acc`.
pub open spec fn spec_digits_val(s: Seq<char>, i: int, acc: int) -> int
    decreases s.len() - i,
{
    if i < 0 || i >= s.len() {
        acc
    } else {
        spec_digits_val(s, i + 1, acc * 10 + digit_val(s[i]))
    }
}

/// Value of the fractional digits of `s[i..]`, each worth `mult`,
/// `mult / 10`, ... billionths; digits beyond the ninth carry nothing.
pub open spec fn spec_frac_val(s: Seq<char>, i: int, mult: int) -> int
    decreases s.len() - i,
{
    if i < 0 || i >= s.len() || mult <= 0 {
        0
    } else {
        digit_val(s[i]) * mult + spec_frac_val(s, i + 1, mult / 10)
    }
}

/// Number of dots in `s`.
pub open spec fn spec_dot_count(s: Seq<char>, i: int) -> int
    decreases s.len() - i,
{
    if i < 0 || i >= s.len() {
        0
    } else if s[i] == '.' {
        1 + spec_dot_count(s, i + 1)
    } else {
        spec_dot_count(s, i + 1)
    }
}

/// Whether every character of `s[i..]` is a digit or a dot.
pub open spec fn spec_all_num(s: Seq<char>, i: int) -> bool
    decreases s.len() - i,
{
    if i < 0 || i >= s.len() {
        true
    } else {
        (spec_is_digit(s[i]) || s[i] == '.') && spec_all_num(s, i + 1)
    }
}

/// Whether `s[i..]` holds at least one digit.
pub open spec fn spec_has_digit(s: Seq<char>, i: int) -> bool
    decreases s.len() - i,
{
    if i < 0 || i >= s.len() {
        false
    } else {
        spec_is_digit(s[i]) || spec_has_digit(s, i + 1)
    }
}

/// A number token body is valid when it is all digits and dots, holds
/// a digit, and holds at most one dot.
pub open spec fn spec_num_valid(s: Seq<char>) -> bool {
    spec_all_num(s, 0) && spec_has_digit(s, 0) && spec_dot_count(s, 0) <= 1
}

/// The magnitude in billionths that a valid number body denotes: the
/// digits before the first dot are whole units, the digits after it
/// are fractional, and only nine fractional digits carry value.
pub open spec fn spec_num_mag(s: Seq<char>) -> int {
    let dot = crate::chars::spec_find_char(s, '.', 0);
    let whole = spec_digits_val(s.subrange(0, dot), 0, 0);
    let frac = spec_frac_val(s, dot + 1, 100_000_000);
    whole * (BILLION as int) + frac
}

/// The decimal a token denotes: an optional leading minus sign, then a
/// valid number body; malformed bodies denote zero.
pub open spec fn spec_parse_dec(s: Seq<char>) -> Dec {
    let neg = s.len() > 0 && s[0] == '-';
    let body = if neg {
        s.skip(1)
    } else {
        s
    };
    if spec_num_valid(body) {
        spec_mk(neg, spec_num_mag(body))
    } else {
        spec_zero()
    }
}

// ---------------------------------------------------------------------
// Executable parsing.
// ---------------------------------------------------------------------
/// Ceiling on whole units: `10^19 - 1`.
pub const WHOLE_SAT: u128 = 9_999_999_999_999_999_999;

fn check_all_num(s: &Vec<char>, i: usize) -> (r: bool)
    requires
        i <= s.len(),
    ensures
        r == spec_all_num(s@, i as int),
    decreases s.len() - i,
{
    if i >= s.len() {
        true
    } else {
        (is_digit_ch(s[i]) || s[i] == '.') && check_all_num(s, i + 1)
    }
}

fn check_has_digit(s: &Vec<char>, i: usize) -> (r: bool)
    requires
        i <= s.len(),
    ensures
        r == spec_has_digit(s@, i as int),
    decreases s.len() - i,
{
    if i >= s.len() {
        false
    } else {
        is_digit_ch(s[i]) || check_has_digit(s, i + 1)
    }
}

fn count_dots(s: &Vec<char>, i: usize) -> (r: usize)
    requires
        i <= s.len(),
    ensures
        r as int == spec_dot_count(s@, i as int),
        r <= s.len() - i,
    decreases s.len() - i,
{
    if i >= s.len() {
        0
    } else if s[i] == '.' {
        1 + count_dots(s, i + 1)
    } else {
        count_dots(s, i + 1)
    }
}

/// Digits value with saturation: the true value when it stays at most
/// [`WHOLE_SAT`], any value above it otherwise.
pub fn whole_val(s: &Vec<char>, end: usize) -> (r: u128)
    requires
        end <= s.len(),
    ensures
        ({
            let tv = spec_digits_val(s@.subrange(0, end as int), 0, 0);
            (tv <= WHOLE_SAT ==> r as int == tv) && (tv > WHOLE_SAT ==> r > WHOLE_SAT)
        }),
{
    let ghost full = s@.subrange(0, end as int);
    let mut acc: u128 = 0;
    let mut ovf: bool = false;
    let mut i: usize = 0;
    proof {
        lemma_digits_prefix(full, 0, 0);
    }
    while i < end
        invariant
            i <= end <= s.len(),
            full == s@.subrange(0, end as int),
            acc <= WHOLE_SAT,
            !ovf ==> acc as int == spec_digits_val(full.subrange(0, i as int), 0, 0),
            ovf ==> spec_digits_val(full.subrange(0, i as int), 0, 0) > WHOLE_SAT,
            spec_digits_val(full, 0, 0) == spec_digits_val(
                full,
                i as int,
                spec_digits_val(full.subrange(0, i as int), 0, 0),
            ),
        decreases end - i,
    {
        let d = digit_of(s[i]);
        let ghost pv = spec_digits_val(full.subrange(0, i as int), 0, 0);
        proof {
            lemma_digits_step(full, i as int, pv);
            assert(full.subrange(0, i + 1 as int).drop_last() =~= full.subrange(0, i as int));
            lemma_digits_last(full.subrange(0, i + 1 as int), pv);
            assert(full[i as int] == s@[i as int]);
        }
        if !ovf {
            if acc > (WHOLE_SAT - d) / 10 {
                ovf = true;
                proof {
                    assert(pv * 10 + digit_val(full[i as int]) > WHOLE_SAT);
                }
            } else {
                acc = acc * 10 + d;
            }
        } else {
            proof {
                assert(pv * 10 + digit_val(full[i as int]) > WHOLE_SAT);
            }
        }
        i = i + 1;
    }
    proof {
        assert(full.subrange(0, end as int) =~= full);
    }
    if ovf {
        WHOLE_SAT + 1
    } else {
        acc
    }
}

/// Peeling one digit off the front of the remaining text.
proof fn lemma_digits_step(s: Seq<char>, i: int, acc: int)
    requires
        0 <= i < s.len(),
    ensures
        spec_digits_val(s, i, acc) == spec_digits_val(s, i + 1, acc * 10 + digit_val(s[i])),
{
}

/// The accumulator view: the value of a prefix extended by one digit.
proof fn lemma_digits_last(p: Seq<char>, acc: int)
    requires
        p.len() >= 1,
    ensures
        spec_digits_val(p, 0, 0) == spec_digits_val(p.drop_last(), 0, 0) * 10 + digit_val(
            p.last(),
        ),
    decreases p.len(),
{
    lemma_digits_acc_shift(p, 0, 0);
}

/// Splitting an accumulator-style fold at the last character.
proof fn lemma_digits_acc_shift(p: Seq<char>, i: int, acc: int)
    requires
        0 <= i <= p.len(),
        p.len() >= 1,
    ensures
        i < p.len() ==> spec_digits_val(p, i, acc) == spec_digits_val(
            p.drop_last(),
            i,
            acc,
        ) * 10 + digit_val(p.last()),
        i == p.len() ==> spec_digits_val(p, i, acc) == acc,
    decreases p.len() - i,
{
    if i < p.len() {
        if i == p.len() - 1 {
            assert(spec_digits_val(p.drop_last(), i, acc) == acc);
            assert(spec_digits_val(p, i, acc) == spec_digits_val(
                p,
                i + 1,
                acc * 10 + digit_val(p[i]),
            ));
        } else {
            let x = acc * 10 + digit_val(p[i]);
            lemma_digits_acc_shift(p, i + 1, x);
            assert(p.drop_last()[i] == p[i]);
            assert(spec_digits_val(p, i, acc) == spec_digits_val(p, i + 1, x));
            assert(spec_digits_val(p.drop_last(), i, acc) == spec_digits_val(
                p.drop_last(),
                i + 1,
                x,
            ));
        }
    }
}

proof fn lemma_digits_prefix(s: Seq<char>, i: int, acc: int)
    requires
        0 <= i <= s.len(),
    ensures
        spec_digits_val(s.subrange(0, i), 0, 0) == spec_digits_val(
            s.subrange(0, i),
            i,
            spec_digits_val(s.subrange(0, i), 0, 0),
        ),
{
}

/// Executable mirror of [`spec_frac_val`].
fn frac_val(s: &Vec<char>, i: usize) -> (r: u128)
    requires
        i <= s.len(),
    ensures
        r as int == spec_frac_val(s@, i as int, 100_000_000),
        r < BILLION,
{
    proof {
        lemma_frac_bound(s@, i as int, 100_000_000);
    }
    frac_val_go(s, i, 100_000_000)
}

fn frac_val_go(s: &Vec<char>, i: usize, mult: u128) -> (r: u128)
    requires
        i <= s.len(),
        mult <= 100_000_000,
    ensures
        r as int == spec_frac_val(s@, i as int, mult as int),
    decreases s.len() - i,
{
    if i >= s.len() || mult == 0 {
        0
    } else {
        proof {
            lemma_frac_bound(s@, i + 1, mult as int / 10);
            assert(digit_val(s@[i as int]) * (mult as int) <= 9 * (mult as int));
        }
        let d = digit_of(s[i]);
        let rest = frac_val_go(s, i + 1, mult / 10);
        d * mult + rest
    }
}

/// A fractional fold stays strictly below ten times its first
/// multiplier.
proof fn lemma_frac_bound(s: Seq<char>, i: int, mult: int)
    requires
        mult >= 0,
    ensures
        0 <= spec_frac_val(s, i, mult),
        spec_frac_val(s, i, mult) <= if mult <= 0 {
            0int
        } else {
            10 * mult - 1
        },
    decreases s.len() - i,
{
    if i < 0 || i >= s.len() || mult <= 0 {
    } else {
        lemma_frac_bound(s, i + 1, mult / 10);
        assert(digit_val(s[i]) * mult <= 9 * mult) by (nonlinear_arith)
            requires
                mult >= 0,
                0 <= digit_val(s[i]) <= 9,
        ;
        assert(10 * (mult / 10) <= mult);
    }
}

/// Executable mirror of [`spec_parse_dec`].
pub fn parse_dec(s: &Vec<char>) -> (r: Dec)
    ensures
        r == spec_parse_dec(s@),
        dec_wf(r),
{
    let neg = s.len() > 0 && s[0] == '-';
    let mut body: Vec<char> = Vec::new();
    let start: usize = if neg {
        1
    } else {
        0
    };
    let mut i: usize = start;
    while i < s.len()
        invariant
            start <= i <= s.len(),
            body@ == s@.subrange(start as int, i as int),
        decreases s.len() - i,
    {
        body.push(s[i]);
        i = i + 1;
        proof {
            assert(body@ =~= s@.subrange(start as int, i as int));
        }
    }
    proof {
        if neg {
            assert(body@ =~= s@.skip(1));
        } else {
            assert(body@ =~= s@);
        }
    }
    if !(check_all_num(&body, 0) && check_has_digit(&body, 0) && count_dots(&body, 0) <= 1) {
        return Dec { neg: false, mag: 0 };
    }
    let dot = crate::chars::find_char(&body, '.', 0);
    let whole = whole_val(&body, dot);
    let frac = if dot < body.len() {
        frac_val(&body, dot + 1)
    } else {
        proof {
            assert(spec_frac_val(body@, dot + 1 as int, 100_000_000) == 0);
        }
        0u128
    };
    if whole > WHOLE_SAT {
        proof {
            let tv = spec_digits_val(body@.subrange(0, dot as int), 0, 0);
            assert(tv * (BILLION as int) + spec_frac_val(body@, dot + 1, 100_000_000) > MAG_SAT);
        }
        mk_dec(neg, MAG_SAT)
    } else {
        proof {
            lemma_frac_bound(body@, dot + 1, 100_000_000);
        }
        mk_dec(neg, whole * BILLION + frac)
    }
}

// ---------------------------------------------------------------------
// Formatting.
// ---------------------------------------------------------------------
/// The decimal digits of `n`, most significant first.
pub open spec fn spec_digits(n: int) -> Seq<char>
    decreases n,
{
    if n < 10 {
        seq![digit_char(if n < 0 { 0 } else { n })]
    } else {
        spec_digits(n / 10).push(digit_char(n % 10))
    }
}

/// The character of one digit value.
pub open spec fn digit_char(d: int) -> char {
    if d == 0 {
        '0'
    } else if d == 1 {
        '1'
    } else if d == 2 {
        '2'
    } else if d == 3 {
        '3'
    } else if d == 4 {
        '4'
    } else if d == 5 {
        '5'
    } else if d == 6 {
        '6'
    } else if d == 7 {
        '7'
    } else if d == 8 {
        '8'
    } else {
        '9'
    }
}

fn digit_char_of(d: u128) -> (r: char)
    requires
        d <= 9,
    ensures
        r == digit_char(d as int),
{
    if d == 0 {
        '0'
    } else if d == 1 {
        '1'
    } else if d == 2 {
        '2'
    } else if d == 3 {
        '3'
    } else if d == 4 {
        '4'
    } else if d == 5 {
        '5'
    } else if d == 6 {
        '6'
    } else if d == 7 {
        '7'
    } else if d == 8 {
        '8'
    } else {
        '9'
    }
}

/// Executable mirror of [`spec_digits`].
pub fn fmt_u128(n: u128) -> (r: Vec<char>)
    ensures
        r@ == spec_digits(n as int),
    decreases n,
{
    if n < 10 {
        let mut r: Vec<char> = Vec::new();
        r.push(digit_char_of(n));
        proof {
            assert(r@ =~= seq![digit_char(n as int)]);
        }
        r
    } else {
        let mut r = fmt_u128(n / 10);
        r.push(digit_char_of(n % 10));
        r
    }
}

/// Exactly `k` low decimal digits of `n`, most significant first.
pub open spec fn spec_pad_digits(n: int, k: nat) -> Seq<char>
    decreases k,
{
    if k == 0 {
        Seq::empty()
    } else {
        spec_pad_digits(n / 10, (k - 1) as nat).push(digit_char(n % 10))
    }
}

fn pad_digits(n: u128, k: usize) -> (r: Vec<char>)
    ensures
        r@ == spec_pad_digits(n as int, k as nat),
    decreases k,
{
    if k == 0 {
        Vec::new()
    } else {
        let mut r = pad_digits(n / 10, k - 1);
        r.push(digit_char_of(n % 10));
        r
    }
}

/// `s` with trailing `'0'` characters removed.
pub open spec fn spec_strip_zeros(s: Seq<char>) -> Seq<char>
    decreases s.len(),
{
    if s.len() > 0 && s.last() == '0' {
        spec_strip_zeros(s.drop_last())
    } else {
        s
    }
}

fn strip_zeros(s: Vec<char>) -> (r: Vec<char>)
    ensures
        r@ == spec_strip_zeros(s@),
    decreases s.len(),
{
    let mut s = s;
    if s.len() > 0 && s[s.len() - 1] == '0' {
        let ghost sv = s@;
        s.pop();
        proof {
            assert(s@ =~= sv.drop_last());
        }
        strip_zeros(s)
    } else {
        s
    }
}

/// Canonical text of a decimal: optional minus sign, the whole units,
/// and the fractional digits without trailing zeros when any remain.
pub open spec fn spec_fmt_dec(d: Dec) -> Seq<char> {
    let sign: Seq<char> = if d.neg {
        seq!['-']
    } else {
        Seq::empty()
    };
    let whole = spec_digits(d.mag as int / BILLION as int);
    let frac = d.mag as int % BILLION as int;
    if frac == 0 {
        sign + whole
    } else {
        sign + whole + seq!['.'] + spec_strip_zeros(spec_pad_digits(frac, 9))
    }
}

/// Executable mirror of [`spec_fmt_dec`].
pub fn fmt_dec(d: Dec) -> (r: Vec<char>)
    ensures
        r@ == spec_fmt_dec(d),
{
    let mut r: Vec<char> = Vec::new();
    if d.neg {
        r.push('-');
    }
    let mut whole = fmt_u128(d.mag / BILLION);
    r.append(&mut whole);
    let frac = d.mag % BILLION;
    if frac == 0 {
        proof {
            assert(r@ =~= spec_fmt_dec(d));
        }
        r
    } else {
        r.push('.');
        let mut f = strip_zeros(pad_digits(frac, 9));
        r.append(&mut f);
        proof {
            assert(r@ =~= spec_fmt_dec(d));
        }
        r
    }
}

/// Text of a signed machine integer.
pub open spec fn spec_fmt_i64(n: int) -> Seq<char> {
    if n < 0 {
        seq!['-'] + spec_digits(-n)
    } else {
        spec_digits(n)
    }
}

/// Executable mirror of [`spec_fmt_i64`].
pub fn fmt_i64(n: i64) -> (r: Vec<char>)
    ensures
        r@ == spec_fmt_i64(n as int),
{
    if n < 0 {
        let mut r: Vec<char> = Vec::new();
        r.push('-');
        let m: u128 = if n == i64::MIN {
            9_223_372_036_854_775_808
        } else {
            (-n) as u128
        };
        let mut d = fmt_u128(m);
        r.append(&mut d);
        proof {
            assert(r@ =~= seq!['-'] + spec_digits(-(n as int)));
        }
        r
    } else {
        fmt_u128(n as u128)
    }
}

/// What `parse_i32` accepts: an optional sign, then one or more
/// digits, the value fitting an `i32`.
pub open spec fn spec_parse_i32(s: Seq<char>) -> Option<i32> {
    let neg = s.len() > 0 && s[0] == '-';
    let signed = s.len() > 0 && (s[0] == '-' || s[0] == '+');
    let body = if signed {
        s.skip(1)
    } else {
        s
    };
    if body.len() == 0 || !spec_all_digits(body, 0) {
        None
    } else {
        let v = spec_digits_val(body, 0, 0);
        if neg {
            if v <= 2_147_483_648 {
                Some((-v) as i32)
            } else {
                None
            }
        } else {
            if v <= 2_147_483_647 {
                Some(v as i32)
            } else {
                None
            }
        }
    }
}

/// Whether every character of `s[i..]` is a digit.
pub open spec fn spec_all_digits(s: Seq<char>, i: int) -> bool
    decreases s.len() - i,
{
    if i < 0 || i >= s.len() {
        true
    } else {
        spec_is_digit(s[i]) && spec_all_digits(s, i + 1)
    }
}

fn check_all_digits(s: &Vec<char>, i: usize) -> (r: bool)
    requires
        i <= s.len(),
    ensures
        r == spec_all_digits(s@, i as int),
    decreases s.len() - i,
{
    if i >= s.len() {
        true
    } else {
        is_digit_ch(s[i]) && check_all_digits(s, i + 1)
    }
}

/// Executable mirror of [`spec_parse_i32`].
pub fn parse_i32(s: &Vec<char>) -> (r: Option<i32>)
    ensures
        r == spec_parse_i32(s@),
{
    let neg = s.len() > 0 && s[0] == '-';
    let signed = s.len() > 0 && (s[0] == '-' || s[0] == '+');
    let start: usize = if signed {
        1
    } else {
        0
    };
    let mut body: Vec<char> = Vec::new();
    let mut i: usize = start;
    while i < s.len()
        invariant
            start <= i <= s.len(),
            body@ == s@.subrange(start as int, i as int),
        decreases s.len() - i,
    {
        body.push(s[i]);
        i = i + 1;
        proof {
            assert(body@ =~= s@.subrange(start as int, i as int));
        }
    }
    proof {
        if signed {
            assert(body@ =~= s@.skip(1));
        } else {
            assert(body@ =~= s@);
        }
    }
    if body.len() == 0 || !check_all_digits(&body, 0) {
        return None;
    }
    let v = whole_val(&body, body.len());
    proof {
        assert(body@.subrange(0, body@.len() as int) =~= body@);
    }
    if neg {
        if v <= 2_147_483_648 {
            Some((-(v as i64)) as i32)
        } else {
            None
        }
    } else {
        if v <= 2_147_483_647 {
            Some(v as i32)
        } else {
            None
        }
    }
}

} // verus!
