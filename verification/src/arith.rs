//! The arithmetic and condition evaluators.
//!
//! Expression text is tokenized into number runs (digits and dots),
//! single-character operators, and inert text.  Each operator gets one
//! left-to-right reduction pass over the tokens, in fixed priority
//! order: power, multiplication, division, addition, subtraction for
//! arithmetic; modulo, greater-than, less-than for conditions, with a
//! final textual equality pass.  A reduction's result can feed the
//! next reduction of the same pass, so chains of one operator fold
//! left to right; passes of lower priority only ever see the finished
//! output of higher ones.

use vstd::prelude::*;

verus! {

use crate::dec::{
    Dec,
    dec_wf,
    spec_one,
    spec_add,
    spec_sub,
    spec_mul,
    spec_div,
    spec_rem,
    spec_lt,
    spec_pow,
    dec_add,
    dec_sub,
    dec_mul,
    dec_div,
    dec_rem,
    dec_lt,
    dec_pow,
    BILLION,
};
use crate::numtext::{spec_parse_dec, parse_dec, spec_fmt_dec, fmt_dec, spec_is_digit, is_digit_ch};
use crate::chars::{push_all, str_to_chars, eq_chars, eq_str};

/// Which operator alphabet a tokenizer run uses.
#[derive(Clone, Copy, PartialEq, Eq, Structural)]
pub enum OpMode {
    /// Arithmetic: power, multiply, divide, add, subtract.
    Calc,
    /// Conditions: modulo, greater-than, less-than.
    Cond,
}

/// Whether `c` is an operator of the given alphabet.
pub open spec fn spec_is_op(c: char, m: OpMode) -> bool {
    match m {
        OpMode::Calc => c == '!' || c == '*' || c == '/' || c == '+' || c == '-',
        OpMode::Cond => c == '%' || c == '>' || c == '<',
    }
}

fn is_op_ch(c: char, m: OpMode) -> (r: bool)
    ensures
        r == spec_is_op(c, m),
{
    match m {
        OpMode::Calc => c == '!' || c == '*' || c == '/' || c == '+' || c == '-',
        OpMode::Cond => c == '%' || c == '>' || c == '<',
    }
}

/// Whether `c` can be part of a number token.
pub open spec fn spec_is_numch(c: char) -> bool {
    spec_is_digit(c) || c == '.'
}

fn is_numch(c: char) -> (r: bool)
    ensures
        r == spec_is_numch(c),
{
    is_digit_ch(c) || c == '.'
}

/// One expression token.
pub enum Tok {
    /// A maximal run of digits and dots, or a rendered result.
    Num(Vec<char>),
    /// One operator character.
    Sym(char),
    /// Inert text that no pass touches.
    Txt(Vec<char>),
}

/// The mathematical shape of a token.
#[verifier::ext_equal]
pub ghost enum TokV {
    Num(Seq<char>),
    Sym(char),
    Txt(Seq<char>),
}

impl View for Tok {
    type V = TokV;

    open spec fn view(&self) -> TokV {
        match self {
            Tok::Num(v) => TokV::Num(v@),
            Tok::Sym(c) => TokV::Sym(*c),
            Tok::Txt(v) => TokV::Txt(v@),
        }
    }
}

impl DeepView for Tok {
    type V = TokV;

    open spec fn deep_view(&self) -> TokV {
        self.view()
    }
}

/// The pending run flushed as a token list: 1 marks a number run, 2 an
/// inert run, anything else nothing pending.
pub open spec fn spec_flush(cur: Seq<char>, kind: int) -> Seq<TokV> {
    if kind == 1 {
        seq![TokV::Num(cur)]
    } else if kind == 2 {
        seq![TokV::Txt(cur)]
    } else {
        Seq::empty()
    }
}

/// The tokens of `s[i..]`, with `cur`/`kind` the run in progress.
pub open spec fn spec_tok_acc(s: Seq<char>, m: OpMode, i: int, cur: Seq<char>, kind: int) -> Seq<
    TokV,
>
    decreases s.len() - i,
{
    if i < 0 || i >= s.len() {
        spec_flush(cur, kind)
    } else {
        let c = s[i];
        if spec_is_numch(c) {
            if kind == 1 {
                spec_tok_acc(s, m, i + 1, cur.push(c), 1)
            } else {
                spec_flush(cur, kind) + spec_tok_acc(s, m, i + 1, seq![c], 1)
            }
        } else if spec_is_op(c, m) {
            spec_flush(cur, kind) + seq![TokV::Sym(c)] + spec_tok_acc(s, m, i + 1, Seq::empty(), 0)
        } else {
            if kind == 2 {
                spec_tok_acc(s, m, i + 1, cur.push(c), 2)
            } else {
                spec_flush(cur, kind) + spec_tok_acc(s, m, i + 1, seq![c], 2)
            }
        }
    }
}

/// The tokens of `s`.
pub open spec fn spec_tokenize(s: Seq<char>, m: OpMode) -> Seq<TokV> {
    spec_tok_acc(s, m, 0, Seq::empty(), 0)
}

/// The token a reduction of `a op b` leaves behind: a rendered number,
/// or inert text for the unbounded and undefined quotient cases.
pub open spec fn spec_combine(op: char, a_raw: Seq<char>, b_raw: Seq<char>) -> TokV {
    let a = spec_parse_dec(a_raw);
    let b = spec_parse_dec(b_raw);
    if op == '!' {
        let e = b.mag / BILLION;
        let p = spec_pow(a, e as nat);
        if b.neg {
            if p.mag == 0 {
                TokV::Txt("inf"@)
            } else {
                TokV::Num(spec_fmt_dec(spec_div(spec_one(), p)))
            }
        } else {
            TokV::Num(spec_fmt_dec(p))
        }
    } else if op == '*' {
        TokV::Num(spec_fmt_dec(spec_mul(a, b)))
    } else if op == '/' {
        if b.mag == 0 {
            if a.mag == 0 {
                TokV::Txt("NaN"@)
            } else if a.neg {
                TokV::Txt("-inf"@)
            } else {
                TokV::Txt("inf"@)
            }
        } else {
            TokV::Num(spec_fmt_dec(spec_div(a, b)))
        }
    } else if op == '+' {
        TokV::Num(spec_fmt_dec(spec_add(a, b)))
    } else if op == '-' {
        TokV::Num(spec_fmt_dec(spec_sub(a, b)))
    } else if op == '%' {
        if b.mag == 0 {
            TokV::Txt("NaN"@)
        } else {
            TokV::Num(spec_fmt_dec(spec_rem(a, b)))
        }
    } else if op == '>' {
        if spec_lt(b, a) {
            TokV::Txt("true"@)
        } else {
            TokV::Txt("false"@)
        }
    } else if op == '<' {
        if spec_lt(a, b) {
            TokV::Txt("true"@)
        } else {
            TokV::Txt("false"@)
        }
    } else {
        TokV::Txt(Seq::empty())
    }
}

/// One reduction pass for `op`: wherever a number, the operator and a
/// number stand side by side, they fold into their result, and that
/// result may fold again with what follows.
pub open spec fn spec_pass(toks: Seq<TokV>, op: char) -> Seq<TokV>
    decreases toks.len(),
{
    if toks.len() >= 3 && toks[0] is Num && toks[1] == TokV::Sym(op) && toks[2] is Num {
        spec_pass(seq![spec_combine(op, toks[0]->Num_0, toks[2]->Num_0)] + toks.skip(3), op)
    } else if toks.len() == 0 {
        toks
    } else {
        seq![toks[0]] + spec_pass(toks.skip(1), op)
    }
}

/// The text a token list renders back to.
pub open spec fn spec_render(toks: Seq<TokV>) -> Seq<char>
    decreases toks.len(),
{
    if toks.len() == 0 {
        Seq::empty()
    } else {
        (match toks[0] {
            TokV::Num(r) => r,
            TokV::Sym(c) => seq![c],
            TokV::Txt(t) => t,
        }) + spec_render(toks.skip(1))
    }
}

/// Arithmetic over whitespace-free text: tokenize, reduce power,
/// multiplication, division, addition and subtraction in that order,
/// and render what remains.
pub open spec fn spec_calc_text(t: Seq<char>) -> Seq<char> {
    spec_render(
        spec_pass(
            spec_pass(spec_pass(spec_pass(spec_pass(spec_tokenize(t, OpMode::Calc), '!'), '*'), '/'), '+'),
            '-',
        ),
    )
}

/// Index of the rightmost `==` in `s` with text on both sides, found
/// searching down from `k`; `-1` when there is none.
pub open spec fn spec_rfind_eq(s: Seq<char>, k: int) -> int
    decreases k + 1,
{
    if k < 1 {
        -1
    } else if k + 3 <= s.len() && s[k] == '=' && s[k + 1] == '=' {
        k
    } else {
        spec_rfind_eq(s, k - 1)
    }
}

/// The textual equality pass: the rightmost `==` with nonempty sides
/// splits the text, and exact textual equality of the two sides
/// decides; text without such a split is left alone.
pub open spec fn spec_eq_pass(s: Seq<char>) -> Seq<char> {
    let k = spec_rfind_eq(s, s.len() - 3);
    if k < 0 {
        s
    } else if s.subrange(0, k) == s.subrange(k + 2, s.len() as int) {
        "true"@
    } else {
        "false"@
    }
}

/// Condition evaluation over whitespace-free text: modulo,
/// greater-than and less-than passes, the equality pass, then the
/// residue must read exactly `true` or `false`.
pub open spec fn spec_cond_text(t: Seq<char>) -> Option<bool> {
    let u = spec_eq_pass(
        spec_render(
            spec_pass(spec_pass(spec_pass(spec_tokenize(t, OpMode::Cond), '%'), '>'), '<'),
        ),
    );
    if u == "true"@ {
        Some(true)
    } else if u == "false"@ {
        Some(false)
    } else {
        None
    }
}

// ---------------------------------------------------------------------
// Executable mirrors.
// ---------------------------------------------------------------------
fn clone_chars(v: &Vec<char>) -> (r: Vec<char>)
    ensures
        r@ == v@,
{
    let mut r: Vec<char> = Vec::new();
    push_all(&mut r, v);
    proof {
        assert(r@ =~= v@);
    }
    r
}

fn tok_clone(t: &Tok) -> (r: Tok)
    ensures
        r@ == t@,
{
    match t {
        Tok::Num(v) => Tok::Num(clone_chars(v)),
        Tok::Sym(c) => Tok::Sym(*c),
        Tok::Txt(v) => Tok::Txt(clone_chars(v)),
    }
}

/// The tokens of `toks` from index `from` on, as a fresh list.
fn toks_suffix(toks: &Vec<Tok>, from: usize) -> (r: Vec<Tok>)
    requires
        from <= toks.len(),
    ensures
        r.deep_view() == toks.deep_view().skip(from as int),
{
    let mut r: Vec<Tok> = Vec::new();
    let mut k: usize = from;
    proof {
        assert(r.deep_view() =~~= toks.deep_view().subrange(from as int, from as int));
    }
    while k < toks.len()
        invariant
            from <= k <= toks.len(),
            r.deep_view() == toks.deep_view().subrange(from as int, k as int),
        decreases toks.len() - k,
    {
        let t = tok_clone(&toks[k]);
        let ghost rold = r.deep_view();
        let ghost rold_vec = r@;
        r.push(t);
        k = k + 1;
        proof {
            let d = r.deep_view();
            let g = toks.deep_view().subrange(from as int, k as int);
            assert(r@ == rold_vec.push(t));
            assert(d.len() == r@.len());
            assert(rold.len() == rold_vec.len());
            assert(d.len() == g.len());
            assert forall|j: int| 0 <= j < d.len() implies d[j] == g[j] by {
                if j < d.len() - 1 {
                    assert(d[j] == rold[j]);
                } else {
                    assert(d[j] == toks.deep_view()[k - 1]);
                }
            }
            assert(d =~= g);
        }
    }
    proof {
        assert(toks.deep_view().subrange(from as int, toks.deep_view().len() as int)
            =~~= toks.deep_view().skip(from as int));
    }
    r
}

/// `head` put in front of `rest`.
fn prepend_tok(head: Tok, rest: Vec<Tok>) -> (r: Vec<Tok>)
    ensures
        r.deep_view() == seq![head@] + rest.deep_view(),
{
    let ghost hv = head@;
    let ghost orig = rest.deep_view();
    let mut r: Vec<Tok> = Vec::new();
    r.push(head);
    proof {
        assert(r.deep_view() =~~= seq![hv]);
    }
    let mut k: usize = 0;
    while k < rest.len()
        invariant
            k <= rest.len(),
            orig == rest.deep_view(),
            r.deep_view() == seq![hv] + orig.subrange(0, k as int),
        decreases rest.len() - k,
    {
        let t = tok_clone(&rest[k]);
        let ghost rold = r.deep_view();
        let ghost rold_vec = r@;
        r.push(t);
        k = k + 1;
        proof {
            let d = r.deep_view();
            let g = seq![hv] + orig.subrange(0, k as int);
            assert(r@ == rold_vec.push(t));
            assert(d.len() == r@.len());
            assert(rold.len() == rold_vec.len());
            assert(d.len() == g.len());
            assert forall|j: int| 0 <= j < d.len() implies d[j] == g[j] by {
                if j < d.len() - 1 {
                    assert(d[j] == rold[j]);
                } else {
                    assert(d[j] == orig[k - 1]);
                }
            }
            assert(d =~= g);
        }
    }
    proof {
        assert(orig.subrange(0, orig.len() as int) =~= orig);
        assert(r.deep_view() =~= seq![hv] + orig);
    }
    r
}

/// Executable mirror of [`spec_combine`].
fn combine_tok(op: char, a_raw: &Vec<char>, b_raw: &Vec<char>) -> (r: Tok)
    ensures
        r@ == spec_combine(op, a_raw@, b_raw@),
{
    let a = parse_dec(a_raw);
    let b = parse_dec(b_raw);
    if op == '!' {
        let e = b.mag / BILLION;
        let p = dec_pow(a, e);
        if b.neg {
            if p.mag == 0 {
                Tok::Txt(str_to_chars("inf"))
            } else {
                let one = Dec { neg: false, mag: BILLION };
                Tok::Num(fmt_dec(dec_div(one, p)))
            }
        } else {
            Tok::Num(fmt_dec(p))
        }
    } else if op == '*' {
        Tok::Num(fmt_dec(dec_mul(a, b)))
    } else if op == '/' {
        if b.mag == 0 {
            if a.mag == 0 {
                Tok::Txt(str_to_chars("NaN"))
            } else if a.neg {
                Tok::Txt(str_to_chars("-inf"))
            } else {
                Tok::Txt(str_to_chars("inf"))
            }
        } else {
            Tok::Num(fmt_dec(dec_div(a, b)))
        }
    } else if op == '+' {
        Tok::Num(fmt_dec(dec_add(a, b)))
    } else if op == '-' {
        Tok::Num(fmt_dec(dec_sub(a, b)))
    } else if op == '%' {
        if b.mag == 0 {
            Tok::Txt(str_to_chars("NaN"))
        } else {
            Tok::Num(fmt_dec(dec_rem(a, b)))
        }
    } else if op == '>' {
        if dec_lt(b, a) {
            Tok::Txt(str_to_chars("true"))
        } else {
            Tok::Txt(str_to_chars("false"))
        }
    } else if op == '<' {
        if dec_lt(a, b) {
            Tok::Txt(str_to_chars("true"))
        } else {
            Tok::Txt(str_to_chars("false"))
        }
    } else {
        Tok::Txt(Vec::new())
    }
}

/// Executable mirror of [`spec_tokenize`].
fn tokenize(s: &Vec<char>, m: OpMode) -> (r: Vec<Tok>)
    ensures
        r.deep_view() == spec_tokenize(s@, m),
{
    tok_acc(s, m, 0, Vec::new(), 0)
}

fn flush_toks(cur: Vec<char>, kind: u8) -> (r: Vec<Tok>)
    ensures
        r.deep_view() == spec_flush(cur@, kind as int),
{
    let mut r: Vec<Tok> = Vec::new();
    let ghost cv = cur@;
    if kind == 1 {
        r.push(Tok::Num(cur));
        proof {
            assert(r.deep_view() =~~= seq![TokV::Num(cv)]);
        }
    } else if kind == 2 {
        r.push(Tok::Txt(cur));
        proof {
            assert(r.deep_view() =~~= seq![TokV::Txt(cv)]);
        }
    } else {
        proof {
            assert(r.deep_view() =~~= Seq::<TokV>::empty());
        }
    }
    r
}

fn concat_toks(a: Vec<Tok>, b: Vec<Tok>) -> (r: Vec<Tok>)
    ensures
        r.deep_view() == a.deep_view() + b.deep_view(),
{
    let ghost av = a.deep_view();
    let ghost bv = b.deep_view();
    let mut a = a;
    let mut b = b;
    a.append(&mut b);
    proof {
        assert(a.deep_view() =~~= av + bv);
    }
    a
}

fn tok_acc(s: &Vec<char>, m: OpMode, i: usize, cur: Vec<char>, kind: u8) -> (r: Vec<Tok>)
    requires
        i <= s.len(),
    ensures
        r.deep_view() == spec_tok_acc(s@, m, i as int, cur@, kind as int),
    decreases s.len() - i,
{
    if i >= s.len() {
        flush_toks(cur, kind)
    } else {
        let c = s[i];
        if is_numch(c) {
            if kind == 1 {
                let mut cur2 = cur;
                cur2.push(c);
                tok_acc(s, m, i + 1, cur2, 1)
            } else {
                let f = flush_toks(cur, kind);
                let mut run: Vec<char> = Vec::new();
                run.push(c);
                proof {
                    assert(run@ =~= seq![s@[i as int]]);
                }
                let rest = tok_acc(s, m, i + 1, run, 1);
                concat_toks(f, rest)
            }
        } else if is_op_ch(c, m) {
            let f = flush_toks(cur, kind);
            let mut sym: Vec<Tok> = Vec::new();
            sym.push(Tok::Sym(c));
            proof {
                assert(sym.deep_view() =~~= seq![TokV::Sym(s@[i as int])]);
            }
            let rest = tok_acc(s, m, i + 1, Vec::new(), 0);
            let front = concat_toks(f, sym);
            let r = concat_toks(front, rest);
            proof {
                assert(r.deep_view() =~~= spec_flush(cur@, kind as int) + seq![
                    TokV::Sym(s@[i as int]),
                ] + spec_tok_acc(s@, m, i + 1, Seq::empty(), 0));
            }
            r
        } else {
            if kind == 2 {
                let mut cur2 = cur;
                cur2.push(c);
                tok_acc(s, m, i + 1, cur2, 2)
            } else {
                let f = flush_toks(cur, kind);
                let mut run: Vec<char> = Vec::new();
                run.push(c);
                proof {
                    assert(run@ =~= seq![s@[i as int]]);
                }
                let rest = tok_acc(s, m, i + 1, run, 2);
                concat_toks(f, rest)
            }
        }
    }
}

/// Executable mirror of [`spec_pass`].
fn pass_toks(toks: Vec<Tok>, op: char) -> (r: Vec<Tok>)
    ensures
        r.deep_view() == spec_pass(toks.deep_view(), op),
    decreases toks.len(),
{
    if toks.len() >= 3 {
        let c0 = match &toks[0] {
            Tok::Num(_) => true,
            _ => false,
        };
        let c1 = match &toks[1] {
            Tok::Sym(c) => *c == op,
            _ => false,
        };
        let c2 = match &toks[2] {
            Tok::Num(_) => true,
            _ => false,
        };
        if c0 && c1 && c2 {
            let a_raw = match &toks[0] {
                Tok::Num(v) => clone_chars(v),
                _ => Vec::new(),
            };
            let b_raw = match &toks[2] {
                Tok::Num(v) => clone_chars(v),
                _ => Vec::new(),
            };
            let comb = combine_tok(op, &a_raw, &b_raw);
            let tail = toks_suffix(&toks, 3);
            let nt = prepend_tok(comb, tail);
            proof {
                let tv = toks.deep_view();
                assert(nt.deep_view() =~~= seq![
                    spec_combine(op, tv[0]->Num_0, tv[2]->Num_0),
                ] + tv.skip(3));
                assert(nt.deep_view().len() == nt@.len());
                assert(nt@.len() == toks@.len() - 2);
            }
            return pass_toks(nt, op);
        }
    }
    if toks.len() == 0 {
        let r: Vec<Tok> = Vec::new();
        proof {
            assert(r.deep_view() =~~= spec_pass(toks.deep_view(), op));
        }
        return r;
    }
    let head = tok_clone(&toks[0]);
    let tail = toks_suffix(&toks, 1);
    proof {
        assert(tail.deep_view().len() == tail@.len());
        assert(tail@.len() == toks@.len() - 1);
    }
    let rest = pass_toks(tail, op);
    let r = prepend_tok(head, rest);
    proof {
        assert(r.deep_view() =~~= seq![toks.deep_view()[0]] + spec_pass(
            toks.deep_view().skip(1),
            op,
        ));
    }
    r
}

/// Executable mirror of [`spec_render`].
fn render_toks(toks: &Vec<Tok>) -> (r: Vec<char>)
    ensures
        r@ == spec_render(toks.deep_view()),
{
    let r = render_from(toks, 0);
    proof {
        assert(toks.deep_view().skip(0) =~= toks.deep_view());
    }
    r
}

fn render_from(toks: &Vec<Tok>, i: usize) -> (r: Vec<char>)
    requires
        i <= toks.len(),
    ensures
        r@ == spec_render(toks.deep_view().skip(i as int)),
    decreases toks.len() - i,
{
    if i >= toks.len() {
        let r: Vec<char> = Vec::new();
        proof {
            assert(toks.deep_view().skip(i as int) =~~= Seq::<TokV>::empty());
        }
        r
    } else {
        let mut r: Vec<char> = match &toks[i] {
            Tok::Num(v) => clone_chars(v),
            Tok::Sym(c) => {
                let mut one: Vec<char> = Vec::new();
                one.push(*c);
                one
            },
            Tok::Txt(v) => clone_chars(v),
        };
        let mut rest = render_from(toks, i + 1);
        r.append(&mut rest);
        proof {
            let tv = toks.deep_view();
            assert(tv.skip(i as int)[0] == tv[i as int]);
            assert(tv.skip(i as int).skip(1) =~~= tv.skip(i + 1));
            assert(r@ =~= spec_render(tv.skip(i as int)));
        }
        r
    }
}

/// Executable mirror of [`spec_calc_text`].
pub fn calc_text(t: &Vec<char>) -> (r: Vec<char>)
    ensures
        r@ == spec_calc_text(t@),
{
    let t0 = tokenize(t, OpMode::Calc);
    let t1 = pass_toks(t0, '!');
    let t2 = pass_toks(t1, '*');
    let t3 = pass_toks(t2, '/');
    let t4 = pass_toks(t3, '+');
    let t5 = pass_toks(t4, '-');
    render_toks(&t5)
}

fn rfind_eq(s: &Vec<char>, k: usize) -> (r: Option<usize>)
    requires
        1 <= k,
        k + 3 <= s.len(),
    ensures
        ({
            let sk = spec_rfind_eq(s@, k as int);
            (r is Some ==> sk == r->0 && 1 <= r->0 && r->0 + 3 <= s.len()) && (r is None ==> sk
                == -1)
        }),
    decreases k,
{
    if s[k] == '=' && s[k + 1] == '=' {
        Some(k)
    } else if k == 1 {
        proof {
            assert(spec_rfind_eq(s@, 0) == -1);
        }
        None
    } else {
        rfind_eq(s, k - 1)
    }
}

/// Executable mirror of [`spec_eq_pass`].
fn eq_pass(s: &Vec<char>) -> (r: Vec<char>)
    ensures
        r@ == spec_eq_pass(s@),
{
    if s.len() < 4 {
        proof {
            assert(spec_rfind_eq(s@, s@.len() - 3) == -1);
        }
        return clone_chars(s);
    }
    match rfind_eq(s, s.len() - 3) {
        None => clone_chars(s),
        Some(k) => {
            let mut left: Vec<char> = Vec::new();
            let mut i: usize = 0;
            while i < k
                invariant
                    i <= k <= s.len(),
                    left@ == s@.subrange(0, i as int),
                decreases k - i,
            {
                left.push(s[i]);
                i = i + 1;
                proof {
                    assert(left@ =~= s@.subrange(0, i as int));
                }
            }
            let mut right: Vec<char> = Vec::new();
            let mut j: usize = k + 2;
            while j < s.len()
                invariant
                    k + 2 <= j <= s.len(),
                    right@ == s@.subrange(k + 2 as int, j as int),
                decreases s.len() - j,
            {
                right.push(s[j]);
                j = j + 1;
                proof {
                    assert(right@ =~= s@.subrange(k + 2 as int, j as int));
                }
            }
            if eq_chars(&left, &right) {
                str_to_chars("true")
            } else {
                str_to_chars("false")
            }
        },
    }
}

/// Executable mirror of [`spec_cond_text`].
pub fn cond_text(t: &Vec<char>) -> (r: Option<bool>)
    ensures
        r == spec_cond_text(t@),
{
    let t0 = tokenize(t, OpMode::Cond);
    let t1 = pass_toks(t0, '%');
    let t2 = pass_toks(t1, '>');
    let t3 = pass_toks(t2, '<');
    let rendered = render_toks(&t3);
    let u = eq_pass(&rendered);
    if eq_str(&u, "true") {
        Some(true)
    } else if eq_str(&u, "false") {
        Some(false)
    } else {
        None
    }
}

} // verus!
