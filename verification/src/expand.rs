//! The directive expander.
//!
//! Raw input text is rewritten in fixed order before any command runs:
//! the line-break escape and the underscore escape, angle-bracket
//! variable interpolation, the `:random MIN-MAX:` directive, the
//! `var(NAME)` directive, and the inline `replace(SOURCE,FIND,WITH)`
//! directive.  Each directive kind is scanned once, left to right, and
//! a replacement is never rescanned by the same kind, so later kinds
//! see text already rewritten by earlier ones but expansion does not
//! recurse.

use vstd::prelude::*;

verus! {

use crate::spec_is_space;
use crate::is_space_ch;
use crate::chars::{
    match_at,
    spec_find_char,
    spec_replace,
    spec_split,
    find_char,
    is_match_at,
    replace_chars,
    split_chars,
    str_to_chars,
    copy_range,
};
use crate::state::{
    BindingV,
    Binding,
    spec_lookup,
    lookup_var,
    spec_rng_next,
    rng_next,
    spec_sample,
    sample,
};
use crate::numtext::{spec_is_digit, is_digit_ch, spec_digits_val, spec_fmt_i64, fmt_i64};

/// Whether `s[a..b]` holds a whitespace character.
pub open spec fn spec_has_space(s: Seq<char>, a: int, b: int) -> bool
    decreases b - a,
{
    if a >= b || a < 0 || a >= s.len() {
        false
    } else {
        spec_is_space(s[a]) || spec_has_space(s, a + 1, b)
    }
}

fn has_space(s: &Vec<char>, a: usize, b: usize) -> (r: bool)
    requires
        b <= s.len(),
    ensures
        r == spec_has_space(s@, a as int, b as int),
    decreases b - a,
{
    if a >= b {
        false
    } else {
        is_space_ch(s[a]) || has_space(s, a + 1, b)
    }
}

/// Angle-bracket interpolation: `<NAME>` becomes the first bound value
/// of `NAME`, or the literal `null` for an unbound name.  The name
/// runs to the first closing bracket, must not be empty, and must not
/// contain whitespace — so rendered line-break tokens pass through.
pub open spec fn spec_scan_angle(vars: Seq<BindingV>, s: Seq<char>, i: int) -> Seq<char>
    decreases s.len() - i,
{
    if i < 0 || i >= s.len() {
        Seq::empty()
    } else if s[i] == '<' && ({
        let j = spec_find_char(s, '>', i + 1);
        j < s.len() && j > i + 1 && !spec_has_space(s, i + 1, j)
    }) {
        let j = spec_find_char(s, '>', i + 1);
        spec_lookup(vars, s.subrange(i + 1, j), 0) + spec_scan_angle(vars, s, j + 1)
    } else {
        seq![s[i]] + spec_scan_angle(vars, s, i + 1)
    }
}

fn scan_angle(vars: &Vec<Binding>, s: &Vec<char>, i: usize) -> (r: Vec<char>)
    requires
        i <= s.len(),
    ensures
        r@ == spec_scan_angle(vars.deep_view(), s@, i as int),
    decreases s.len() - i,
{
    if i >= s.len() {
        Vec::new()
    } else {
        let mut hit = false;
        let mut j: usize = 0;
        if s[i] == '<' {
            j = find_char(s, '>', i + 1);
            hit = j < s.len() && j > i + 1 && !has_space(s, i + 1, j);
        }
        if hit {
            let name = copy_range(s, i + 1, j);
            let mut r = lookup_var(vars, &name);
            let mut rest = scan_angle(vars, s, j + 1);
            r.append(&mut rest);
            proof {
                assert(r@ =~= spec_scan_angle(vars.deep_view(), s@, i as int));
            }
            r
        } else {
            let mut r: Vec<char> = Vec::new();
            r.push(s[i]);
            let mut rest = scan_angle(vars, s, i + 1);
            r.append(&mut rest);
            proof {
                assert(r@ =~= seq![s@[i as int]] + spec_scan_angle(vars.deep_view(), s@, i + 1));
            }
            r
        }
    }
}

/// First index at or after `i` whose character is not a digit.
pub open spec fn spec_digits_end(s: Seq<char>, i: int) -> int
    decreases s.len() - i,
{
    if 0 <= i < s.len() && spec_is_digit(s[i]) {
        spec_digits_end(s, i + 1)
    } else {
        i
    }
}

fn digits_end(s: &Vec<char>, i: usize) -> (r: usize)
    requires
        i <= s.len(),
    ensures
        r as int == spec_digits_end(s@, i as int),
        i <= r <= s.len(),
    decreases s.len() - i,
{
    if i < s.len() && is_digit_ch(s[i]) {
        digits_end(s, i + 1)
    } else {
        i
    }
}

/// A structural `:random MIN-MAX:` match at `i`: the directive word,
/// one whitespace character, a digit run, a dash, a digit run and a
/// colon, with both numbers fitting an `i32`.
pub open spec fn spec_random_at(s: Seq<char>, i: int) -> Option<(i32, i32, int)> {
    if match_at(s, ":random"@, i) && i + 7 < s.len() && spec_is_space(s[i + 7]) {
        let a = i + 8;
        let b = spec_digits_end(s, a);
        if b > a && b < s.len() && s[b] == '-' {
            let c = b + 1;
            let d = spec_digits_end(s, c);
            if d > c && d < s.len() && s[d] == ':' {
                let minv = spec_digits_val(s.subrange(a, b), 0, 0);
                let maxv = spec_digits_val(s.subrange(c, d), 0, 0);
                if minv <= 2_147_483_647 && maxv <= 2_147_483_647 {
                    Some((minv as i32, maxv as i32, d + 1))
                } else {
                    None
                }
            } else {
                None
            }
        } else {
            None
        }
    } else {
        None
    }
}

fn digits_to_i32(s: &Vec<char>, a: usize, b: usize) -> (r: Option<i32>)
    requires
        a <= b <= s.len(),
    ensures
        ({
            let v = spec_digits_val(s@.subrange(a as int, b as int), 0, 0);
            (r is Some ==> v <= 2_147_483_647 && r->0 as int == v) && (r is None ==> v
                > 2_147_483_647)
        }),
{
    let piece = copy_range(s, a, b);
    let v = crate::numtext::whole_val(&piece, piece.len());
    proof {
        assert(piece@.subrange(0, piece@.len() as int) =~= piece@);
    }
    if v <= 2_147_483_647 {
        Some(v as i32)
    } else {
        None
    }
}

fn random_at(s: &Vec<char>, i: usize) -> (r: Option<(i32, i32, usize)>)
    requires
        i <= s.len(),
    ensures
        ({
            let m = spec_random_at(s@, i as int);
            (r is Some <==> m is Some) && (r is Some ==> ({
                let h = m->0;
                let g = r->0;
                h.0 == g.0 && h.1 == g.1 && h.2 == g.2 as int && i < g.2 <= s.len()
            }))
        }),
{
    let pat = str_to_chars(":random");
    if !(pat.len() <= s.len() - i && is_match_at(s, &pat, i)) {
        return None;
    }
    if !(s.len() - i > 7 && is_space_ch(s[i + 7])) {
        return None;
    }
    let a = i + 8;
    let b = digits_end(s, a);
    if !(b > a && b < s.len() && s[b] == '-') {
        return None;
    }
    let c = b + 1;
    let d = digits_end(s, c);
    if !(d > c && d < s.len() && s[d] == ':') {
        return None;
    }
    let minv = digits_to_i32(s, a, b);
    let maxv = digits_to_i32(s, c, d);
    match (minv, maxv) {
        (Some(mn), Some(mx)) => Some((mn, mx, d + 1)),
        _ => None,
    }
}

/// The `:random MIN-MAX:` scan: each structural match consumes one
/// generator step and renders a value in `[MIN, MAX)` (or `MIN` itself
/// when the range is empty or reversed); text that does not match the
/// full shape, or whose bounds overflow an `i32`, is left alone.
pub open spec fn spec_scan_random(rng: u64, s: Seq<char>, i: int) -> (u64, Seq<char>)
    decreases s.len() - i,
{
    if i < 0 || i >= s.len() {
        (rng, Seq::empty())
    } else {
        let m = spec_random_at(s, i);
        if m is Some && ({
            let h = m->0;
            h.2 > i && h.2 <= s.len()
        }) {
            let h = m->0;
            let nxt = spec_rng_next(rng);
            let rec = spec_scan_random(nxt, s, h.2);
            (rec.0, spec_fmt_i64(spec_sample(nxt, h.0, h.1)) + rec.1)
        } else {
            let rec = spec_scan_random(rng, s, i + 1);
            (rec.0, seq![s[i]] + rec.1)
        }
    }
}

fn scan_random(rng: u64, s: &Vec<char>, i: usize) -> (r: (u64, Vec<char>))
    requires
        i <= s.len(),
    ensures
        ({
            let m = spec_scan_random(rng, s@, i as int);
            r.0 == m.0 && r.1@ == m.1
        }),
    decreases s.len() - i,
{
    if i >= s.len() {
        (rng, Vec::new())
    } else {
        match random_at(s, i) {
            Some((mn, mx, end)) => {
                let nxt = rng_next(rng);
                let v = sample(nxt, mn, mx);
                let (r2, mut rest) = scan_random(nxt, s, end);
                let mut out = fmt_i64(v as i64);
                out.append(&mut rest);
                proof {
                    assert(out@ =~= spec_scan_random(rng, s@, i as int).1);
                }
                (r2, out)
            },
            None => {
                let (r2, mut rest) = scan_random(rng, s, i + 1);
                let mut out: Vec<char> = Vec::new();
                out.push(s[i]);
                out.append(&mut rest);
                proof {
                    assert(out@ =~= seq![s@[i as int]] + spec_scan_random(rng, s@, i + 1).1);
                }
                (r2, out)
            },
        }
    }
}

/// The `var(NAME)` scan: the name runs from the opening parenthesis to
/// the first closing one at least one character later, and resolves
/// through the variable store with `null` for unbound names.
pub open spec fn spec_scan_var(vars: Seq<BindingV>, s: Seq<char>, i: int) -> Seq<char>
    decreases s.len() - i,
{
    if i < 0 || i >= s.len() {
        Seq::empty()
    } else if match_at(s, "var("@, i) && i + 5 <= s.len() && ({
        let j = spec_find_char(s, ')', i + 5);
        j < s.len() && j > i + 4
    }) {
        let j = spec_find_char(s, ')', i + 5);
        spec_lookup(vars, s.subrange(i + 4, j), 0) + spec_scan_var(vars, s, j + 1)
    } else {
        seq![s[i]] + spec_scan_var(vars, s, i + 1)
    }
}

fn scan_var(vars: &Vec<Binding>, s: &Vec<char>, i: usize) -> (r: Vec<char>)
    requires
        i <= s.len(),
    ensures
        r@ == spec_scan_var(vars.deep_view(), s@, i as int),
    decreases s.len() - i,
{
    if i >= s.len() {
        Vec::new()
    } else {
        let pat = str_to_chars("var(");
        let mut hit = false;
        let mut j: usize = 0;
        if pat.len() <= s.len() - i && is_match_at(s, &pat, i) && s.len() - i >= 5 {
            j = find_char(s, ')', i + 5);
            hit = j < s.len() && j > i + 4;
        }
        if hit {
            let name = copy_range(s, i + 4, j);
            let mut r = lookup_var(vars, &name);
            let mut rest = scan_var(vars, s, j + 1);
            r.append(&mut rest);
            proof {
                assert(r@ =~= spec_scan_var(vars.deep_view(), s@, i as int));
            }
            r
        } else {
            let mut r: Vec<char> = Vec::new();
            r.push(s[i]);
            let mut rest = scan_var(vars, s, i + 1);
            r.append(&mut rest);
            proof {
                assert(r@ =~= seq![s@[i as int]] + spec_scan_var(vars.deep_view(), s@, i + 1));
            }
            r
        }
    }
}

/// What one `replace(...)` directive body yields: a three-way comma
/// split replacing every occurrence of the second part in the first by
/// the third; fewer than three parts yield an inline error text.
pub open spec fn spec_replace_directive(content: Seq<char>) -> Seq<char> {
    let parts = spec_split(content, ","@);
    if parts.len() < 3 {
        "Invalid replace command!"@
    } else {
        spec_replace(parts[0], parts[1], parts[2])
    }
}

/// The `replace(SOURCE,FIND,WITH)` scan: the body runs from the
/// opening parenthesis to the first closing one at least one character
/// later.
pub open spec fn spec_scan_replace(s: Seq<char>, i: int) -> Seq<char>
    decreases s.len() - i,
{
    if i < 0 || i >= s.len() {
        Seq::empty()
    } else if match_at(s, "replace("@, i) && i + 9 <= s.len() && ({
        let j = spec_find_char(s, ')', i + 9);
        j < s.len() && j > i + 8
    }) {
        let j = spec_find_char(s, ')', i + 9);
        spec_replace_directive(s.subrange(i + 8, j)) + spec_scan_replace(s, j + 1)
    } else {
        seq![s[i]] + spec_scan_replace(s, i + 1)
    }
}

fn scan_replace(s: &Vec<char>, i: usize) -> (r: Vec<char>)
    requires
        i <= s.len(),
    ensures
        r@ == spec_scan_replace(s@, i as int),
    decreases s.len() - i,
{
    if i >= s.len() {
        Vec::new()
    } else {
        let pat = str_to_chars("replace(");
        let mut hit = false;
        let mut j: usize = 0;
        if pat.len() <= s.len() - i && is_match_at(s, &pat, i) && s.len() - i >= 9 {
            j = find_char(s, ')', i + 9);
            hit = j < s.len() && j > i + 8;
        }
        if hit {
            let content = copy_range(s, i + 8, j);
            let comma = str_to_chars(",");
            let parts = split_chars(&content, &comma);
            let mut r: Vec<char>;
            if parts.len() < 3 {
                r = str_to_chars("Invalid replace command!");
            } else {
                r = replace_chars(&parts[0], &parts[1], &parts[2]);
                proof {
                    let pv = parts.deep_view();
                    assert(parts@[0]@ == pv[0] && parts@[1]@ == pv[1] && parts@[2]@ == pv[2]);
                }
            }
            let mut rest = scan_replace(s, j + 1);
            r.append(&mut rest);
            proof {
                assert(r@ =~= spec_scan_replace(s@, i as int));
            }
            r
        } else {
            let mut r: Vec<char> = Vec::new();
            r.push(s[i]);
            let mut rest = scan_replace(s, i + 1);
            r.append(&mut rest);
            proof {
                assert(r@ =~= seq![s@[i as int]] + spec_scan_replace(s@, i + 1));
            }
            r
        }
    }
}

/// The full directive expansion of `t` against the variable store and
/// the generator state: escapes, angle interpolation, randomness,
/// `var(...)`, then `replace(...)`, in that order.
pub open spec fn spec_expand_rng(vars: Seq<BindingV>, rng: u64, t: Seq<char>) -> (u64, Seq<char>) {
    let t1 = spec_replace(t, "\\n"@, "<br />"@);
    let t2 = spec_replace(t1, "\\_"@, " "@);
    let t3 = spec_scan_angle(vars, t2, 0);
    let r4 = spec_scan_random(rng, t3, 0);
    let t5 = spec_scan_var(vars, r4.1, 0);
    let t6 = spec_scan_replace(t5, 0);
    (r4.0, t6)
}

/// Executable mirror of [`spec_expand_rng`].
pub fn expand_text(vars: &Vec<Binding>, rng: u64, t: &Vec<char>) -> (r: (u64, Vec<char>))
    ensures
        ({
            let m = spec_expand_rng(vars.deep_view(), rng, t@);
            r.0 == m.0 && r.1@ == m.1
        }),
{
    let pat_nl = str_to_chars("\\n");
    let rep_br = str_to_chars("<br />");
    let t1 = replace_chars(t, &pat_nl, &rep_br);
    let pat_us = str_to_chars("\\_");
    let rep_sp = str_to_chars(" ");
    let t2 = replace_chars(&t1, &pat_us, &rep_sp);
    let t3 = scan_angle(vars, &t2, 0);
    let (rng4, t4) = scan_random(rng, &t3, 0);
    let t5 = scan_var(vars, &t4, 0);
    let t6 = scan_replace(&t5, 0);
    (rng4, t6)
}

} // verus!
