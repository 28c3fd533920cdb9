//! The command dispatcher and the built-in command handlers.
//!
//! One interpreter instance owns the session state.  A call to
//! [`Interpreter::command`] splits the input on the compound separator
//! `&&`, expands the directives of each segment whose first token
//! names a registered command, and runs that command's handler;
//! matched outputs are joined with the line-break token, and a call in
//! which no segment matched returns `Command not found!`.
//!
//! Handlers may re-enter the dispatcher — through `eval(...)`
//! expansion, `repeat`, `ol`/`olc`, `exec` and `if` — so every level
//! carries a recursion budget; a call that exhausts it returns a
//! recursion-limit message instead of recursing further.

use vstd::prelude::*;

verus! {

use crate::chars::{
    spec_replace,
    spec_split,
    spec_split_ws,
    spec_join,
    spec_trim,
    spec_find_char,
    spec_find_sub,
    spec_rfind_sub,
    match_at,
    str_to_chars,
    chars_to_string,
    eq_chars,
    eq_str,
    is_match_at,
    find_char,
    find_sub,
    rfind_sub,
    copy_range,
    replace_chars,
    split_chars,
    split_ws,
    join_chars,
    trim_chars,
    push_all,
    prepend_piece,
    pieces_suffix,
};
use crate::state::{
    Binding,
    BindingV,
    FunDef,
    FunV,
    StateV,
    spec_lookup,
    lookup_var,
    spec_fun_lookup,
    spec_var_names,
    spec_fun_names,
    spec_rng_next,
    rng_next,
    spec_sample,
    sample,
};
use crate::registry::{
    spec_is_command,
    is_command,
    spec_command_names,
    command_names,
    spec_help_of,
    help_of,
};
use crate::expand::{spec_expand_rng, expand_text};
use crate::arith::{spec_calc_text, calc_text, spec_cond_text, cond_text};
use crate::numtext::{spec_parse_i32, parse_i32, spec_fmt_i64, fmt_i64};

/// How deep nested dispatch may go before it is cut off.
pub const MAX_DEPTH: u64 = 64;

/// An interpreter instance: the variable store, the function store and
/// the random generator state, owned for the life of the session.
pub struct Interpreter {
    pub vars: Vec<Binding>,
    pub funs: Vec<FunDef>,
    pub rng: u64,
}

impl View for Interpreter {
    type V = StateV;

    open spec fn view(&self) -> StateV {
        StateV { vars: self.vars.deep_view(), funs: self.funs.deep_view(), rng: self.rng }
    }
}

/// Directive expansion as a state step: only the generator state moves.
pub open spec fn spec_expand_st(st: StateV, t: Seq<char>) -> (StateV, Seq<char>) {
    let r = spec_expand_rng(st.vars, st.rng, t);
    (StateV { rng: r.0, ..st }, r.1)
}

// ---------------------------------------------------------------------
// Pure handler models.
// ---------------------------------------------------------------------
/// `return`: the arguments joined with single spaces.
pub open spec fn spec_h_return(args: Seq<Seq<char>>) -> Seq<char> {
    spec_join(args, " "@)
}

/// `help`: a named command's help text, a miss message, or the hint
/// line followed by all command names.
pub open spec fn spec_h_help(args: Seq<Seq<char>>) -> Seq<char> {
    if args.len() >= 1 {
        match spec_help_of(args[0]) {
            Some(h) => h,
            None => "No such command: '"@ + args[0] + "'"@,
        }
    } else {
        "Type |help command_name| for further info on each command"@ + "<br />"@ + spec_join(
            spec_command_names(),
            " - "@,
        )
    }
}

/// `get`: the first bound value of the named variable, `null` on a
/// miss.
pub open spec fn spec_h_get(st: StateV, args: Seq<Seq<char>>) -> Seq<char> {
    let name: Seq<char> = if args.len() > 0 {
        args[0]
    } else {
        Seq::empty()
    };
    spec_lookup(st.vars, name, 0)
}

/// `set`: appends a binding — it never replaces an earlier one — and
/// always succeeds.
pub open spec fn spec_h_set(st: StateV, args: Seq<Seq<char>>) -> (StateV, Seq<char>) {
    let name: Seq<char> = if args.len() > 0 {
        args[0]
    } else {
        Seq::empty()
    };
    let value: Seq<char> = if args.len() > 1 {
        args[1]
    } else {
        Seq::empty()
    };
    (StateV { vars: st.vars.push(BindingV { name, value }), ..st }, "Success"@)
}

/// `list`: variable names, function names or command names joined with
/// a pipe separator; anything else is refused.
pub open spec fn spec_h_list(st: StateV, args: Seq<Seq<char>>) -> Seq<char> {
    let what: Seq<char> = if args.len() > 0 {
        args[0]
    } else {
        Seq::empty()
    };
    if what == "var"@ {
        spec_join(spec_var_names(st.vars), " | "@)
    } else if what == "fn"@ {
        spec_join(spec_fun_names(st.funs), " | "@)
    } else if what == "cmd"@ {
        spec_join(spec_command_names(), " | "@)
    } else {
        "Couldn't list that. Type |help list| for further info."@
    }
}

/// `random`: one generator step rendered into `[min, max)` (or `min`
/// for an empty range); unparseable bounds count as zero and missing
/// ones are errors.
pub open spec fn spec_h_random(st: StateV, args: Seq<Seq<char>>) -> (StateV, Seq<char>) {
    if args.len() == 0 {
        (st, "Minimum val not specified."@)
    } else if args.len() == 1 {
        (st, "Maximum val not specified."@)
    } else {
        let mn: i32 = match spec_parse_i32(args[0]) {
            Some(v) => v,
            None => 0,
        };
        let mx: i32 = match spec_parse_i32(args[1]) {
            Some(v) => v,
            None => 0,
        };
        let nxt = spec_rng_next(st.rng);
        (StateV { rng: nxt, ..st }, spec_fmt_i64(spec_sample(nxt, mn, mx)))
    }
}

/// A `name(text)` token split at its first parenthesis pair: the name
/// before the first `(` (at least one character) and the text up to
/// the first `)` after it (possibly empty).
pub open spec fn spec_parse_paren(tok: Seq<char>) -> Option<(Seq<char>, Seq<char>)> {
    let p = spec_find_char(tok, '(', 0);
    if p >= 1 && p < tok.len() {
        let q = spec_find_char(tok, ')', p + 1);
        if q < tok.len() && q >= p + 1 {
            Some((tok.subrange(0, p), tok.subrange(p + 1, q)))
        } else {
            None
        }
    } else {
        None
    }
}

/// Parameter names: the comma-split pieces, each trimmed.
pub open spec fn spec_map_trim(parts: Seq<Seq<char>>) -> Seq<Seq<char>> {
    parts.map_values(|p: Seq<char>| spec_trim(p))
}

/// `fn`: parses `name(params)`, refuses reserved names and missing
/// bodies, and appends the entry — the body stored literally, with the
/// `__AND__` escape restored to the compound separator.
pub open spec fn spec_h_fn(st: StateV, args: Seq<Seq<char>>) -> (StateV, Seq<char>) {
    if args.len() == 0 {
        (st, "Function name not specified! Type |help fn| for further info."@)
    } else {
        match spec_parse_paren(args[0]) {
            None => (st, "Invalid fn declaration! Type |help fn| for further info."@),
            Some(np) => {
                if spec_is_command(np.0) {
                    (st, "Function name '"@ + np.0 + "' is reserved!"@)
                } else if args.len() <= 1 {
                    (st, "No command was specified! Type |help fn| for further info."@)
                } else {
                    let params = spec_map_trim(spec_split(np.1, ","@));
                    let body = spec_replace(spec_join(args.skip(1), " "@), "__AND__"@, "&&"@);
                    (
                        StateV { funs: st.funs.push(FunV { name: np.0, body, params }), ..st },
                        "Success!"@,
                    )
                }
            },
        }
    }
}

/// A stored body with every `--param` placeholder replaced by its
/// positional argument value; missing arguments bind to empty text.
pub open spec fn spec_subst(
    body: Seq<char>,
    params: Seq<Seq<char>>,
    vals: Seq<Seq<char>>,
    i: int,
) -> Seq<char>
    decreases params.len() - i,
{
    if i < 0 || i >= params.len() {
        body
    } else {
        let v: Seq<char> = if i < vals.len() {
            vals[i]
        } else {
            Seq::empty()
        };
        spec_subst(spec_replace(body, "--"@ + params[i], v), params, vals, i + 1)
    }
}

// ---------------------------------------------------------------------
// The mutually recursive dispatch model.
// ---------------------------------------------------------------------
/// `eval(...)` expansion of `s[i..]`: each wrapper is replaced by the
/// output of dispatching its inner text, spending one unit of the
/// recursion budget; replacements are not rescanned.
pub open spec fn spec_eval(st: StateV, s: Seq<char>, i: int, fuel: nat) -> (StateV, Seq<char>)
    decreases fuel, 1int, s.len() - i,
{
    if i < 0 || i >= s.len() {
        (st, Seq::empty())
    } else if fuel == 0 {
        (st, s.subrange(i, s.len() as int))
    } else if match_at(s, "eval("@, i) && s.len() - i >= 6 && ({
        let j = spec_find_char(s, ')', i + 6);
        j < s.len() && j > i + 5
    }) {
        let j = spec_find_char(s, ')', i + 6);
        let c = spec_command(st, s.subrange(i + 5, j), (fuel - 1) as nat);
        let rest = spec_eval(c.0, s, j + 1, fuel);
        (rest.0, c.1 + rest.1)
    } else {
        let rest = spec_eval(st, s, i + 1, fuel);
        (rest.0, seq![s[i]] + rest.1)
    }
}

/// Condition evaluation: `eval(...)` expansion, spaces stripped, then
/// the condition reduction passes.
pub open spec fn spec_cond(st: StateV, text: Seq<char>, fuel: nat) -> (StateV, Option<bool>)
    decreases fuel, 2int, 0int,
{
    if fuel == 0 {
        (st, None)
    } else {
        let e = spec_eval(st, text, 0, fuel);
        (e.0, spec_cond_text(spec_replace(e.1, " "@, Seq::empty())))
    }
}

/// The `repeat` iterations from `i` up to `n`: each iteration rewrites
/// the index placeholder, expands `eval(...)`, and dispatches.
pub open spec fn spec_repeat_loop(
    st: StateV,
    cmd: Seq<char>,
    idx: Seq<char>,
    i: int,
    n: int,
    fuel: nat,
) -> (StateV, Seq<Seq<char>>)
    decreases fuel, 2int, n - i,
{
    if fuel == 0 || i >= n {
        (st, Seq::empty())
    } else {
        let replaced = spec_replace(cmd, seq!['#'] + idx, spec_fmt_i64(i));
        let e = spec_eval(st, replaced, 0, fuel);
        let c = spec_command(e.0, e.1, (fuel - 1) as nat);
        let rest = spec_repeat_loop(c.0, cmd, idx, i + 1, n, fuel);
        (rest.0, seq![c.1] + rest.1)
    }
}

/// The comma-split `exec` arguments, each trimmed and `eval(...)`
/// expanded in order.
pub open spec fn spec_exec_args(st: StateV, parts: Seq<Seq<char>>, i: int, fuel: nat) -> (
    StateV,
    Seq<Seq<char>>,
)
    decreases fuel, 2int, parts.len() - i,
{
    if fuel == 0 || i < 0 || i >= parts.len() {
        (st, Seq::empty())
    } else {
        let e = spec_eval(st, spec_trim(parts[i]), 0, fuel);
        let rest = spec_exec_args(e.0, parts, i + 1, fuel);
        (rest.0, seq![e.1] + rest.1)
    }
}

/// `repeat`: count (unparseable counts as one), index name, then the
/// command text; outputs joined with the line-break token.
pub open spec fn spec_h_repeat(st: StateV, args: Seq<Seq<char>>, fuel: nat) -> (StateV, Seq<char>)
    decreases fuel, 3int, 0int,
{
    if fuel == 0 {
        (st, "Recursion limit reached!"@)
    } else if args.len() == 0 {
        (st, "Num-repeat not specified! Type |help repeat| for further info."@)
    } else {
        let n: int = match spec_parse_i32(args[0]) {
            Some(v) => v as int,
            None => 1,
        };
        if args.len() == 1 {
            (st, "Index not specified! Type |help repeat| for further info."@)
        } else if args.len() <= 2 {
            (st, "No command to repeat was specified! Type |help repeat| for further info."@)
        } else {
            let cmd = spec_join(args.skip(2), " "@);
            let r = spec_repeat_loop(st, cmd, args[1], 0, n, fuel);
            (r.0, spec_join(r.1, "<br />"@))
        }
    }
}

/// `ol`: the joined arguments dispatched as a nested command, with
/// line-break tokens flattened to single spaces.
pub open spec fn spec_h_ol(st: StateV, args: Seq<Seq<char>>, fuel: nat) -> (StateV, Seq<char>)
    decreases fuel, 3int, 0int,
{
    if fuel == 0 {
        (st, "Recursion limit reached!"@)
    } else {
        let c = spec_command(st, spec_join(args, " "@), (fuel - 1) as nat);
        (c.0, spec_replace(spec_replace(c.1, "<br />"@, " "@), "\n"@, Seq::empty()))
    }
}

/// `olc`: like `ol`, but line-break tokens are removed entirely.
pub open spec fn spec_h_olc(st: StateV, args: Seq<Seq<char>>, fuel: nat) -> (StateV, Seq<char>)
    decreases fuel, 3int, 0int,
{
    if fuel == 0 {
        (st, "Recursion limit reached!"@)
    } else {
        let c = spec_command(st, spec_join(args, " "@), (fuel - 1) as nat);
        (c.0, spec_replace(spec_replace(c.1, "<br />"@, Seq::empty()), "\n"@, Seq::empty()))
    }
}

/// `exec`: parses `name(args)`, expands each argument, finds the first
/// function entry of that name (first declaration wins), substitutes
/// the parameters into the stored body and dispatches it; an unknown
/// name yields `null`.
pub open spec fn spec_h_exec(st: StateV, args: Seq<Seq<char>>, fuel: nat) -> (StateV, Seq<char>)
    decreases fuel, 3int, 0int,
{
    if fuel == 0 {
        (st, "Recursion limit reached!"@)
    } else {
        let tok: Seq<char> = if args.len() > 0 {
            args[0]
        } else {
            Seq::empty()
        };
        match spec_parse_paren(tok) {
            None => (st, "Invalid fn declaration! Type |help fn| for further info."@),
            Some(np) => {
                let ev = spec_exec_args(st, spec_split(np.1, ","@), 0, fuel);
                match spec_fun_lookup(ev.0.funs, np.0, 0) {
                    None => (ev.0, "null"@),
                    Some(f) => {
                        let body = spec_subst(f.body, f.params, ev.1, 0);
                        spec_command(ev.0, body, (fuel - 1) as nat)
                    },
                }
            },
        }
    }
}

/// `replace`: the leading arguments (joined and `eval(...)` expanded)
/// are the source; the last two name what to find and what to put in
/// its place, with `:space:` meaning a space and `:nothing:` meaning
/// removal.
pub open spec fn spec_h_replace(st: StateV, args: Seq<Seq<char>>, fuel: nat) -> (StateV, Seq<char>)
    decreases fuel, 3int, 0int,
{
    if fuel == 0 {
        (st, "Recursion limit reached!"@)
    } else if args.len() < 2 {
        (st, "Character to replace not specified. Type |help replace| for more info."@)
    } else {
        let e = spec_eval(st, spec_join(args.subrange(0, args.len() - 2), " "@), 0, fuel);
        let rep = args[args.len() - 2];
        let wth = args[args.len() - 1];
        let find: Seq<char> = if rep == ":space:"@ {
            " "@
        } else {
            rep
        };
        let put: Seq<char> = if wth == ":nothing:"@ {
            Seq::empty()
        } else {
            wth
        };
        (e.0, spec_replace(e.1, find, put))
    }
}

/// `calc`: the joined arguments, `eval(...)` expanded, spaces
/// stripped, then the arithmetic reduction passes.
pub open spec fn spec_h_calc(st: StateV, args: Seq<Seq<char>>, fuel: nat) -> (StateV, Seq<char>)
    decreases fuel, 3int, 0int,
{
    if fuel == 0 {
        (st, "Recursion limit reached!"@)
    } else {
        let e = spec_eval(st, spec_join(args, " "@), 0, fuel);
        (e.0, spec_calc_text(spec_replace(e.1, " "@, Seq::empty())))
    }
}

/// The `if` argument text split into condition, do-branch and
/// else-branch: `(cond) {do} else {else}` with the condition running
/// to the first `) {`, the do-branch to the last `} else {`, and the
/// else-branch to the final closing brace.
pub open spec fn spec_parse_if(t: Seq<char>) -> Option<(Seq<char>, Seq<char>, Seq<char>)> {
    if t.len() < 1 || t[0] != '(' {
        None
    } else {
        let j = spec_find_sub(t, ") {"@, 1);
        if j < 2 {
            None
        } else {
            let k = spec_rfind_sub(t, "} else {"@, t.len() - 8);
            if k < j + 4 {
                None
            } else if t.len() >= k + 10 && t[t.len() - 1] == '}' {
                Some((t.subrange(1, j), t.subrange(j + 3, k), t.subrange(k + 8, t.len() - 1)))
            } else {
                None
            }
        }
    }
}

/// `if`: parses its bracketed shape, evaluates the condition, and
/// dispatches the matching branch; a condition that does not reduce to
/// a boolean literal is an error.
pub open spec fn spec_h_if(st: StateV, args: Seq<Seq<char>>, fuel: nat) -> (StateV, Seq<char>)
    decreases fuel, 3int, 0int,
{
    if fuel == 0 {
        (st, "Recursion limit reached!"@)
    } else {
        let t = spec_join(args, " "@);
        match spec_parse_if(t) {
            None => (st, "Condition not found"@),
            Some(cde) => {
                let cv = spec_cond(st, cde.0, fuel);
                match cv.1 {
                    None => (cv.0, "Error parsing condition"@),
                    Some(b) => {
                        if b {
                            spec_command(cv.0, cde.1, (fuel - 1) as nat)
                        } else {
                            spec_command(cv.0, cde.2, (fuel - 1) as nat)
                        }
                    },
                }
            },
        }
    }
}

/// The handler of a registered command name applied to its arguments;
/// the host-delegated names answer with empty text.
pub open spec fn spec_run_handler(st: StateV, name: Seq<char>, args: Seq<Seq<char>>, fuel: nat) -> (
    StateV,
    Seq<char>,
)
    decreases fuel, 4int, 0int,
{
    if name == "return"@ {
        (st, spec_h_return(args))
    } else if name == "repeat"@ {
        spec_h_repeat(st, args, fuel)
    } else if name == "help"@ {
        (st, spec_h_help(args))
    } else if name == "set"@ {
        spec_h_set(st, args)
    } else if name == "get"@ {
        (st, spec_h_get(st, args))
    } else if name == "ol"@ {
        spec_h_ol(st, args, fuel)
    } else if name == "olc"@ {
        spec_h_olc(st, args, fuel)
    } else if name == "fn"@ {
        spec_h_fn(st, args)
    } else if name == "exec"@ {
        spec_h_exec(st, args, fuel)
    } else if name == "list"@ {
        (st, spec_h_list(st, args))
    } else if name == "replace"@ {
        spec_h_replace(st, args, fuel)
    } else if name == "random"@ {
        spec_h_random(st, args)
    } else if name == "calc"@ {
        spec_h_calc(st, args, fuel)
    } else if name == "if"@ {
        spec_h_if(st, args, fuel)
    } else {
        (st, Seq::empty())
    }
}

/// The segments from index `i` on: a segment whose first token (before
/// expansion) names a command is expanded whole and run, its output
/// collected; other segments are skipped silently.
pub open spec fn spec_segments(st: StateV, segs: Seq<Seq<char>>, i: int, fuel: nat) -> (
    StateV,
    Seq<Seq<char>>,
    bool,
)
    decreases fuel, 2int, segs.len() - i,
{
    if fuel == 0 || i < 0 || i >= segs.len() {
        (st, Seq::empty(), false)
    } else {
        let toks = spec_split_ws(segs[i]);
        let name: Seq<char> = if toks.len() > 0 {
            toks[0]
        } else {
            Seq::empty()
        };
        if spec_is_command(name) {
            let ex = spec_expand_st(st, segs[i]);
            let et = spec_split_ws(ex.1);
            let args: Seq<Seq<char>> = if et.len() > 0 {
                et.skip(1)
            } else {
                et
            };
            let h = spec_run_handler(ex.0, name, args, (fuel - 1) as nat);
            let rest = spec_segments(h.0, segs, i + 1, fuel);
            (rest.0, seq![h.1] + rest.1, true)
        } else {
            spec_segments(st, segs, i + 1, fuel)
        }
    }
}

/// One dispatch of an input line: split on `&&`, run the matched
/// segments in order, join their outputs with the line-break token; a
/// line in which nothing matched answers `Command not found!`, and an
/// exhausted recursion budget answers the limit message.
pub open spec fn spec_command(st: StateV, input: Seq<char>, fuel: nat) -> (StateV, Seq<char>)
    decreases fuel, 5int, 0int,
{
    if fuel == 0 {
        (st, "Recursion limit reached!"@)
    } else {
        let r = spec_segments(st, spec_split(input, "&&"@), 0, fuel);
        if r.2 {
            (r.0, spec_join(r.1, "<br />"@))
        } else {
            (r.0, "Command not found!"@)
        }
    }
}

// ---------------------------------------------------------------------
// Executable mirrors.
// ---------------------------------------------------------------------
fn clone_piece(v: &Vec<char>) -> (r: Vec<char>)
    ensures
        r@ == v@,
{
    let mut r: Vec<char> = Vec::new();
    push_all(&mut r, v);
    proof {
        assert(r@ =~= v@);
    }
    r
}

/// Executable mirror of [`spec_parse_paren`].
fn parse_paren(tok: &Vec<char>) -> (r: Option<(Vec<char>, Vec<char>)>)
    ensures
        ({
            let m = spec_parse_paren(tok@);
            (r is Some <==> m is Some) && (r is Some ==> ({
                let g = r->0;
                let h = m->0;
                g.0@ == h.0 && g.1@ == h.1
            }))
        }),
{
    let p = find_char(tok, '(', 0);
    if p >= 1 && p < tok.len() {
        let q = find_char(tok, ')', p + 1);
        if q < tok.len() && q >= p + 1 {
            Some((copy_range(tok, 0, p), copy_range(tok, p + 1, q)))
        } else {
            None
        }
    } else {
        None
    }
}

/// Executable mirror of [`spec_map_trim`].
fn map_trim(parts: &Vec<Vec<char>>) -> (r: Vec<Vec<char>>)
    ensures
        r.deep_view() == spec_map_trim(parts.deep_view()),
{
    let mut r: Vec<Vec<char>> = Vec::new();
    let mut k: usize = 0;
    while k < parts.len()
        invariant
            k <= parts.len(),
            r.deep_view().len() == k as int,
            forall|j: int| 0 <= j < k ==> r.deep_view()[j] == spec_trim(parts.deep_view()[j]),
        decreases parts.len() - k,
    {
        let t = trim_chars(&parts[k]);
        let ghost rold = r.deep_view();
        let ghost rold_vec = r@;
        r.push(t);
        k = k + 1;
        proof {
            assert(r@ == rold_vec.push(t));
            assert(r.deep_view().len() == r@.len());
            assert(rold.len() == rold_vec.len());
            assert forall|j: int| 0 <= j < k implies r.deep_view()[j] == spec_trim(
                parts.deep_view()[j],
            ) by {
                if j < k - 1 {
                    assert(r.deep_view()[j] == rold[j]);
                } else {
                    assert(r.deep_view()[j] =~= t@);
                    assert(parts.deep_view()[j] == parts@[j]@);
                }
            }
        }
    }
    proof {
        assert(r.deep_view() =~= spec_map_trim(parts.deep_view()));
    }
    r
}

/// Executable mirror of [`spec_subst`].
fn subst(body: Vec<char>, params: &Vec<Vec<char>>, vals: &Vec<Vec<char>>, i: usize) -> (r: Vec<
    char,
>)
    requires
        i <= params.len(),
    ensures
        r@ == spec_subst(body@, params.deep_view(), vals.deep_view(), i as int),
    decreases params.len() - i,
{
    if i >= params.len() {
        body
    } else {
        let mut pat = str_to_chars("--");
        push_all(&mut pat, &params[i]);
        proof {
            assert(pat@ =~= "--"@ + params.deep_view()[i as int]);
        }
        let v: Vec<char> = if i < vals.len() {
            clone_piece(&vals[i])
        } else {
            Vec::new()
        };
        proof {
            if i < vals.len() {
                assert(v@ == vals.deep_view()[i as int]);
            } else {
                assert(v@ =~= Seq::<char>::empty());
            }
        }
        let body2 = replace_chars(&body, &pat, &v);
        subst(body2, params, vals, i + 1)
    }
}

/// Executable mirror of [`spec_fun_lookup`], handing back a copy of
/// the stored body and parameter names.
fn lookup_fun(funs: &Vec<FunDef>, name: &Vec<char>, i: usize) -> (r: Option<
    (Vec<char>, Vec<Vec<char>>),
>)
    requires
        i <= funs.len(),
    ensures
        ({
            let m = spec_fun_lookup(funs.deep_view(), name@, i as int);
            (r is Some <==> m is Some) && (r is Some ==> ({
                let g = r->0;
                let h = m->0;
                g.0@ == h.body && g.1.deep_view() == h.params
            }))
        }),
    decreases funs.len() - i,
{
    if i >= funs.len() {
        None
    } else if eq_chars(&funs[i].name, name) {
        proof {
            assert(funs.deep_view()[i as int].name == funs@[i as int].name@);
        }
        let body = clone_piece(&funs[i].body);
        let params = pieces_suffix(&funs[i].params, 0);
        proof {
            let fv = funs.deep_view()[i as int];
            assert(funs@[i as int].params.deep_view().skip(0) =~~= fv.params);
        }
        Some((body, params))
    } else {
        proof {
            assert(funs.deep_view()[i as int].name == funs@[i as int].name@);
        }
        lookup_fun(funs, name, i + 1)
    }
}

/// Executable mirror of [`spec_var_names`].
fn names_of_vars(vars: &Vec<Binding>) -> (r: Vec<Vec<char>>)
    ensures
        r.deep_view() == spec_var_names(vars.deep_view()),
{
    let mut r: Vec<Vec<char>> = Vec::new();
    let mut k: usize = 0;
    while k < vars.len()
        invariant
            k <= vars.len(),
            r.deep_view().len() == k as int,
            forall|j: int| 0 <= j < k ==> r.deep_view()[j] == vars.deep_view()[j].name,
        decreases vars.len() - k,
    {
        let n = clone_piece(&vars[k].name);
        let ghost rold = r.deep_view();
        let ghost rold_vec = r@;
        r.push(n);
        k = k + 1;
        proof {
            assert(r@ == rold_vec.push(n));
            assert(r.deep_view().len() == r@.len());
            assert(rold.len() == rold_vec.len());
            assert forall|j: int| 0 <= j < k implies r.deep_view()[j] == vars.deep_view()[j].name by {
                if j < k - 1 {
                    assert(r.deep_view()[j] == rold[j]);
                } else {
                    assert(r.deep_view()[j] =~= n@);
                    assert(vars.deep_view()[j].name == vars@[j].name@);
                }
            }
        }
    }
    proof {
        assert(r.deep_view() =~= spec_var_names(vars.deep_view()));
    }
    r
}

/// Executable mirror of [`spec_fun_names`].
fn names_of_funs(funs: &Vec<FunDef>) -> (r: Vec<Vec<char>>)
    ensures
        r.deep_view() == spec_fun_names(funs.deep_view()),
{
    let mut r: Vec<Vec<char>> = Vec::new();
    let mut k: usize = 0;
    while k < funs.len()
        invariant
            k <= funs.len(),
            r.deep_view().len() == k as int,
            forall|j: int| 0 <= j < k ==> r.deep_view()[j] == funs.deep_view()[j].name,
        decreases funs.len() - k,
    {
        let n = clone_piece(&funs[k].name);
        let ghost rold = r.deep_view();
        let ghost rold_vec = r@;
        r.push(n);
        k = k + 1;
        proof {
            assert(r@ == rold_vec.push(n));
            assert(r.deep_view().len() == r@.len());
            assert(rold.len() == rold_vec.len());
            assert forall|j: int| 0 <= j < k implies r.deep_view()[j] == funs.deep_view()[j].name by {
                if j < k - 1 {
                    assert(r.deep_view()[j] == rold[j]);
                } else {
                    assert(r.deep_view()[j] =~= n@);
                    assert(funs.deep_view()[j].name == funs@[j].name@);
                }
            }
        }
    }
    proof {
        assert(r.deep_view() =~= spec_fun_names(funs.deep_view()));
    }
    r
}

/// Executable mirror of [`spec_parse_if`].
fn parse_if(t: &Vec<char>) -> (r: Option<(Vec<char>, Vec<char>, Vec<char>)>)
    ensures
        ({
            let m = spec_parse_if(t@);
            (r is Some <==> m is Some) && (r is Some ==> ({
                let g = r->0;
                let h = m->0;
                g.0@ == h.0 && g.1@ == h.1 && g.2@ == h.2
            }))
        }),
{
    if t.len() < 1 || t[0] != '(' {
        return None;
    }
    let pat1 = str_to_chars(") {");
    let j = match find_sub(t, &pat1, 1) {
        None => {
            return None;
        },
        Some(j) => j,
    };
    if j < 2 {
        return None;
    }
    let pat2 = str_to_chars("} else {");
    if t.len() < 8 {
        proof {
            assert(spec_rfind_sub(t@, "} else {"@, t@.len() - 8) == -1);
        }
        return None;
    }
    let k = match rfind_sub(t, &pat2, t.len() - 8) {
        None => {
            return None;
        },
        Some(k) => k,
    };
    if k < j || k - j < 4 {
        return None;
    }
    if t.len() - k >= 10 && t[t.len() - 1] == '}' {
        Some((copy_range(t, 1, j), copy_range(t, j + 3, k), copy_range(t, k + 8, t.len() - 1)))
    } else {
        None
    }
}

impl Interpreter {
    /// A fresh session: empty stores and the given generator seed.
    pub fn new(seed: u64) -> (r: Interpreter)
        ensures
            r@.vars == Seq::<BindingV>::empty(),
            r@.funs == Seq::<FunV>::empty(),
            r@.rng == seed,
    {
        let r = Interpreter { vars: Vec::new(), funs: Vec::new(), rng: seed };
        proof {
            assert(r@.vars =~= Seq::<BindingV>::empty());
            assert(r@.funs =~= Seq::<FunV>::empty());
        }
        r
    }

    /// Executable mirror of [`spec_expand_st`].
    fn expand_segment(&mut self, t: &Vec<char>) -> (out: Vec<char>)
        ensures
            final(self)@ == spec_expand_st(old(self)@, t@).0,
            out@ == spec_expand_st(old(self)@, t@).1,
    {
        let (nr, out) = expand_text(&self.vars, self.rng, t);
        self.rng = nr;
        proof {
            assert(self@ =~~= spec_expand_st(old(self)@, t@).0);
        }
        out
    }

    /// Executable mirror of [`spec_eval`].
    fn eval_text(&mut self, s: &Vec<char>, i: usize, fuel: u64) -> (out: Vec<char>)
        requires
            i <= s.len(),
        ensures
            final(self)@ == spec_eval(old(self)@, s@, i as int, fuel as nat).0,
            out@ == spec_eval(old(self)@, s@, i as int, fuel as nat).1,
        decreases fuel, 1int, s.len() - i,
    {
        if i >= s.len() {
            Vec::new()
        } else if fuel == 0 {
            copy_range(s, i, s.len())
        } else {
            let pat = str_to_chars("eval(");
            let mut hit = false;
            let mut j: usize = 0;
            if pat.len() <= s.len() - i && is_match_at(s, &pat, i) && s.len() - i >= 6 {
                j = find_char(s, ')', i + 6);
                hit = j < s.len() && j > i + 5;
            }
            if hit {
                let inner = copy_range(s, i + 5, j);
                let mut out = self.command_fuel(&inner, fuel - 1);
                let mut rest = self.eval_text(s, j + 1, fuel);
                out.append(&mut rest);
                proof {
                    assert(out@ =~= spec_eval(old(self)@, s@, i as int, fuel as nat).1);
                }
                out
            } else {
                let mut out: Vec<char> = Vec::new();
                out.push(s[i]);
                let mut rest = self.eval_text(s, i + 1, fuel);
                out.append(&mut rest);
                proof {
                    assert(out@ =~= seq![s@[i as int]] + spec_eval(
                        old(self)@,
                        s@,
                        i + 1,
                        fuel as nat,
                    ).1);
                }
                out
            }
        }
    }

    /// Executable mirror of [`spec_cond`].
    fn cond_eval(&mut self, text: &Vec<char>, fuel: u64) -> (out: Option<bool>)
        requires
            fuel >= 1,
        ensures
            final(self)@ == spec_cond(old(self)@, text@, fuel as nat).0,
            out == spec_cond(old(self)@, text@, fuel as nat).1,
        decreases fuel, 2int, 0int,
    {
        let e = self.eval_text(text, 0, fuel);
        let sp = str_to_chars(" ");
        let none: Vec<char> = Vec::new();
        let stripped = replace_chars(&e, &sp, &none);
        cond_text(&stripped)
    }

    /// Executable mirror of [`spec_exec_args`].
    fn exec_args_eval(&mut self, parts: &Vec<Vec<char>>, i: usize, fuel: u64) -> (out: Vec<
        Vec<char>,
    >)
        requires
            i <= parts.len(),
            fuel >= 1,
        ensures
            final(self)@ == spec_exec_args(old(self)@, parts.deep_view(), i as int, fuel as nat).0,
            out.deep_view() == spec_exec_args(
                old(self)@,
                parts.deep_view(),
                i as int,
                fuel as nat,
            ).1,
        decreases fuel, 2int, parts.len() - i,
    {
        if i >= parts.len() {
            let out: Vec<Vec<char>> = Vec::new();
            proof {
                assert(out.deep_view() =~~= Seq::<Seq<char>>::empty());
            }
            out
        } else {
            let t = trim_chars(&parts[i]);
            proof {
                assert(parts.deep_view()[i as int] == parts@[i as int]@);
            }
            let e = self.eval_text(&t, 0, fuel);
            let rest = self.exec_args_eval(parts, i + 1, fuel);
            let out = prepend_piece(e, rest);
            proof {
                assert(out.deep_view() =~~= spec_exec_args(
                    old(self)@,
                    parts.deep_view(),
                    i as int,
                    fuel as nat,
                ).1);
            }
            out
        }
    }

    /// Executable mirror of [`spec_h_repeat`].
    fn h_repeat(&mut self, args: &Vec<Vec<char>>, fuel: u64) -> (out: Vec<char>)
        ensures
            final(self)@ == spec_h_repeat(old(self)@, args.deep_view(), fuel as nat).0,
            out@ == spec_h_repeat(old(self)@, args.deep_view(), fuel as nat).1,
        decreases fuel, 3int, 0int,
    {
        if fuel == 0 {
            return str_to_chars("Recursion limit reached!");
        }
        if args.len() == 0 {
            return str_to_chars("Num-repeat not specified! Type |help repeat| for further info.");
        }
        proof {
            assert(args.deep_view()[0] == args@[0]@);
        }
        let n: i32 = match parse_i32(&args[0]) {
            Some(v) => v,
            None => 1,
        };
        if args.len() == 1 {
            return str_to_chars("Index not specified! Type |help repeat| for further info.");
        }
        if args.len() <= 2 {
            return str_to_chars(
                "No command to repeat was specified! Type |help repeat| for further info.",
            );
        }
        let tail = pieces_suffix(args, 2);
        let sp = str_to_chars(" ");
        let cmd = join_chars(&tail, &sp);
        let idx = clone_piece(&args[1]);
        proof {
            assert(args.deep_view()[1] == args@[1]@);
            assert(cmd@ == spec_join(args.deep_view().skip(2), " "@));
        }
        let ghost st0 = self@;
        let ghost target = spec_repeat_loop(
            st0,
            cmd@,
            idx@,
            0,
            n as int,
            fuel as nat,
        );
        let mut outs: Vec<Vec<char>> = Vec::new();
        let mut i: i32 = 0;
        proof {
            assert(outs.deep_view() =~~= Seq::<Seq<char>>::empty());
        }
        while i < n
            invariant
                0 <= i,
                n > 0 ==> i <= n,
                fuel >= 1,
                spec_repeat_loop(self@, cmd@, idx@, i as int, n as int, fuel as nat).0 == target.0,
                outs.deep_view() + spec_repeat_loop(
                    self@,
                    cmd@,
                    idx@,
                    i as int,
                    n as int,
                    fuel as nat,
                ).1 == target.1,
            decreases n - i,
        {
            let ghost st_i = self@;
            let mut pat: Vec<char> = Vec::new();
            pat.push('#');
            push_all(&mut pat, &idx);
            proof {
                assert(pat@ =~= seq!['#'] + idx@);
            }
            let iv = fmt_i64(i as i64);
            let replaced = replace_chars(&cmd, &pat, &iv);
            let ev = self.eval_text(&replaced, 0, fuel);
            let out = self.command_fuel(&ev, fuel - 1);
            let ghost outs_old = outs.deep_view();
            outs.push(out);
            i = i + 1;
            proof {
                let step = spec_repeat_loop(st_i, cmd@, idx@, i - 1 as int, n as int, fuel as nat);
                let after = spec_repeat_loop(self@, cmd@, idx@, i as int, n as int, fuel as nat);
                assert(step.0 == after.0);
                assert(step.1 =~~= seq![outs.deep_view()[outs.deep_view().len() - 1]] + after.1);
                assert(outs.deep_view() + after.1 =~~= outs_old + step.1);
            }
        }
        proof {
            assert(spec_repeat_loop(self@, cmd@, idx@, i as int, n as int, fuel as nat).1
                =~~= Seq::<Seq<char>>::empty());
            assert(outs.deep_view() =~~= target.1);
        }
        let br = str_to_chars("<br />");
        let joined = join_chars(&outs, &br);
        joined
    }

    /// Executable mirror of [`spec_h_ol`].
    fn h_ol(&mut self, args: &Vec<Vec<char>>, fuel: u64) -> (out: Vec<char>)
        ensures
            final(self)@ == spec_h_ol(old(self)@, args.deep_view(), fuel as nat).0,
            out@ == spec_h_ol(old(self)@, args.deep_view(), fuel as nat).1,
        decreases fuel, 3int, 0int,
    {
        if fuel == 0 {
            return str_to_chars("Recursion limit reached!");
        }
        let sp = str_to_chars(" ");
        let joined = join_chars(args, &sp);
        let c = self.command_fuel(&joined, fuel - 1);
        let br = str_to_chars("<br />");
        let nl = str_to_chars("\n");
        let none: Vec<char> = Vec::new();
        let step = replace_chars(&c, &br, &sp);
        replace_chars(&step, &nl, &none)
    }

    /// Executable mirror of [`spec_h_olc`].
    fn h_olc(&mut self, args: &Vec<Vec<char>>, fuel: u64) -> (out: Vec<char>)
        ensures
            final(self)@ == spec_h_olc(old(self)@, args.deep_view(), fuel as nat).0,
            out@ == spec_h_olc(old(self)@, args.deep_view(), fuel as nat).1,
        decreases fuel, 3int, 0int,
    {
        if fuel == 0 {
            return str_to_chars("Recursion limit reached!");
        }
        let sp = str_to_chars(" ");
        let joined = join_chars(args, &sp);
        let c = self.command_fuel(&joined, fuel - 1);
        let br = str_to_chars("<br />");
        let nl = str_to_chars("\n");
        let none: Vec<char> = Vec::new();
        let step = replace_chars(&c, &br, &none);
        replace_chars(&step, &nl, &none)
    }

    /// Executable mirror of [`spec_h_exec`].
    fn h_exec(&mut self, args: &Vec<Vec<char>>, fuel: u64) -> (out: Vec<char>)
        ensures
            final(self)@ == spec_h_exec(old(self)@, args.deep_view(), fuel as nat).0,
            out@ == spec_h_exec(old(self)@, args.deep_view(), fuel as nat).1,
        decreases fuel, 3int, 0int,
    {
        if fuel == 0 {
            return str_to_chars("Recursion limit reached!");
        }
        let tok: Vec<char> = if args.len() > 0 {
            proof {
                assert(args.deep_view()[0] == args@[0]@);
            }
            clone_piece(&args[0])
        } else {
            Vec::new()
        };
        match parse_paren(&tok) {
            None => str_to_chars("Invalid fn declaration! Type |help fn| for further info."),
            Some((name, argtext)) => {
                let comma = str_to_chars(",");
                let raw = split_chars(&argtext, &comma);
                let vals = self.exec_args_eval(&raw, 0, fuel);
                match lookup_fun(&self.funs, &name, 0) {
                    None => str_to_chars("null"),
                    Some((body, params)) => {
                        let body2 = subst(body, &params, &vals, 0);
                        self.command_fuel(&body2, fuel - 1)
                    },
                }
            },
        }
    }

    /// Executable mirror of [`spec_h_replace`].
    fn h_replace(&mut self, args: &Vec<Vec<char>>, fuel: u64) -> (out: Vec<char>)
        ensures
            final(self)@ == spec_h_replace(old(self)@, args.deep_view(), fuel as nat).0,
            out@ == spec_h_replace(old(self)@, args.deep_view(), fuel as nat).1,
        decreases fuel, 3int, 0int,
    {
        if fuel == 0 {
            return str_to_chars("Recursion limit reached!");
        }
        if args.len() < 2 {
            return str_to_chars(
                "Character to replace not specified. Type |help replace| for more info.",
            );
        }
        let lead = crate::chars::pieces_prefix(args, args.len() - 2);
        let sp = str_to_chars(" ");
        let src = join_chars(&lead, &sp);
        let e = self.eval_text(&src, 0, fuel);
        proof {
            assert(args.deep_view()[args@.len() - 2] == args@[args@.len() - 2]@);
            assert(args.deep_view()[args@.len() - 1] == args@[args@.len() - 1]@);
        }
        let rep = &args[args.len() - 2];
        let wth = &args[args.len() - 1];
        let find: Vec<char> = if eq_str(rep, ":space:") {
            str_to_chars(" ")
        } else {
            clone_piece(rep)
        };
        let put: Vec<char> = if eq_str(wth, ":nothing:") {
            Vec::new()
        } else {
            clone_piece(wth)
        };
        proof {
            assert(put@.len() == 0 ==> put@ =~= Seq::<char>::empty());
        }
        replace_chars(&e, &find, &put)
    }

    /// Executable mirror of [`spec_h_calc`].
    fn h_calc(&mut self, args: &Vec<Vec<char>>, fuel: u64) -> (out: Vec<char>)
        ensures
            final(self)@ == spec_h_calc(old(self)@, args.deep_view(), fuel as nat).0,
            out@ == spec_h_calc(old(self)@, args.deep_view(), fuel as nat).1,
        decreases fuel, 3int, 0int,
    {
        if fuel == 0 {
            return str_to_chars("Recursion limit reached!");
        }
        let sp = str_to_chars(" ");
        let joined = join_chars(args, &sp);
        let e = self.eval_text(&joined, 0, fuel);
        let none: Vec<char> = Vec::new();
        let stripped = replace_chars(&e, &sp, &none);
        calc_text(&stripped)
    }

    /// Executable mirror of [`spec_h_if`].
    fn h_if(&mut self, args: &Vec<Vec<char>>, fuel: u64) -> (out: Vec<char>)
        ensures
            final(self)@ == spec_h_if(old(self)@, args.deep_view(), fuel as nat).0,
            out@ == spec_h_if(old(self)@, args.deep_view(), fuel as nat).1,
        decreases fuel, 3int, 0int,
    {
        if fuel == 0 {
            return str_to_chars("Recursion limit reached!");
        }
        let sp = str_to_chars(" ");
        let t = join_chars(args, &sp);
        match parse_if(&t) {
            None => str_to_chars("Condition not found"),
            Some((c, d, e)) => {
                let cv = self.cond_eval(&c, fuel);
                match cv {
                    None => str_to_chars("Error parsing condition"),
                    Some(b) => {
                        if b {
                            self.command_fuel(&d, fuel - 1)
                        } else {
                            self.command_fuel(&e, fuel - 1)
                        }
                    },
                }
            },
        }
    }

    /// Executable mirror of [`spec_h_set`].
    fn h_set(&mut self, args: &Vec<Vec<char>>) -> (out: Vec<char>)
        ensures
            final(self)@ == spec_h_set(old(self)@, args.deep_view()).0,
            out@ == spec_h_set(old(self)@, args.deep_view()).1,
    {
        let name: Vec<char> = if args.len() > 0 {
            proof {
                assert(args.deep_view()[0] == args@[0]@);
            }
            clone_piece(&args[0])
        } else {
            Vec::new()
        };
        let value: Vec<char> = if args.len() > 1 {
            proof {
                assert(args.deep_view()[1] == args@[1]@);
            }
            clone_piece(&args[1])
        } else {
            Vec::new()
        };
        self.vars.push(Binding { name, value });
        proof {
            assert(self@ =~~= spec_h_set(old(self)@, args.deep_view()).0);
        }
        str_to_chars("Success")
    }

    /// Executable mirror of [`spec_h_fn`].
    fn h_fn(&mut self, args: &Vec<Vec<char>>) -> (out: Vec<char>)
        ensures
            final(self)@ == spec_h_fn(old(self)@, args.deep_view()).0,
            out@ == spec_h_fn(old(self)@, args.deep_view()).1,
    {
        if args.len() == 0 {
            return str_to_chars("Function name not specified! Type |help fn| for further info.");
        }
        proof {
            assert(args.deep_view()[0] == args@[0]@);
        }
        match parse_paren(&args[0]) {
            None => str_to_chars("Invalid fn declaration! Type |help fn| for further info."),
            Some((name, ptext)) => {
                if is_command(&name) {
                    let mut msg = str_to_chars("Function name '");
                    push_all(&mut msg, &name);
                    let mut tailtext = str_to_chars("' is reserved!");
                    msg.append(&mut tailtext);
                    proof {
                        assert(msg@ =~= "Function name '"@ + name@ + "' is reserved!"@);
                    }
                    msg
                } else if args.len() <= 1 {
                    str_to_chars("No command was specified! Type |help fn| for further info.")
                } else {
                    let comma = str_to_chars(",");
                    let params = map_trim(&split_chars(&ptext, &comma));
                    let tail = pieces_suffix(args, 1);
                    let sp = str_to_chars(" ");
                    let joined = join_chars(&tail, &sp);
                    let anda = str_to_chars("__AND__");
                    let andb = str_to_chars("&&");
                    let body = replace_chars(&joined, &anda, &andb);
                    self.funs.push(FunDef { name, body, params });
                    proof {
                        assert(self@ =~~= spec_h_fn(old(self)@, args.deep_view()).0);
                    }
                    str_to_chars("Success!")
                }
            },
        }
    }

    /// Executable mirror of [`spec_h_random`].
    fn h_random(&mut self, args: &Vec<Vec<char>>) -> (out: Vec<char>)
        ensures
            final(self)@ == spec_h_random(old(self)@, args.deep_view()).0,
            out@ == spec_h_random(old(self)@, args.deep_view()).1,
    {
        if args.len() == 0 {
            return str_to_chars("Minimum val not specified.");
        }
        if args.len() == 1 {
            return str_to_chars("Maximum val not specified.");
        }
        proof {
            assert(args.deep_view()[0] == args@[0]@);
            assert(args.deep_view()[1] == args@[1]@);
        }
        let mn: i32 = match parse_i32(&args[0]) {
            Some(v) => v,
            None => 0,
        };
        let mx: i32 = match parse_i32(&args[1]) {
            Some(v) => v,
            None => 0,
        };
        let nxt = rng_next(self.rng);
        self.rng = nxt;
        proof {
            assert(self@ =~~= spec_h_random(old(self)@, args.deep_view()).0);
        }
        let v = sample(nxt, mn, mx);
        fmt_i64(v as i64)
    }

    /// Executable mirror of [`spec_h_help`].
    fn h_help(&mut self, args: &Vec<Vec<char>>) -> (out: Vec<char>)
        ensures
            final(self)@ == old(self)@,
            out@ == spec_h_help(args.deep_view()),
    {
        if args.len() >= 1 {
            proof {
                assert(args.deep_view()[0] == args@[0]@);
            }
            match help_of(&args[0]) {
                Some(h) => h,
                None => {
                    let mut msg = str_to_chars("No such command: '");
                    push_all(&mut msg, &args[0]);
                    let mut q = str_to_chars("'");
                    msg.append(&mut q);
                    proof {
                        assert(msg@ =~= "No such command: '"@ + args@[0]@ + "'"@);
                    }
                    msg
                },
            }
        } else {
            let mut msg = str_to_chars(
                "Type |help command_name| for further info on each command",
            );
            let mut br = str_to_chars("<br />");
            msg.append(&mut br);
            let names = command_names();
            let dash = str_to_chars(" - ");
            let mut joined = join_chars(&names, &dash);
            msg.append(&mut joined);
            proof {
                assert(msg@ =~= spec_h_help(args.deep_view()));
            }
            msg
        }
    }

    /// Executable mirror of [`spec_h_list`].
    fn h_list(&mut self, args: &Vec<Vec<char>>) -> (out: Vec<char>)
        ensures
            final(self)@ == old(self)@,
            out@ == spec_h_list(old(self)@, args.deep_view()),
    {
        let what: Vec<char> = if args.len() > 0 {
            proof {
                assert(args.deep_view()[0] == args@[0]@);
            }
            clone_piece(&args[0])
        } else {
            Vec::new()
        };
        let bar = str_to_chars(" | ");
        if eq_str(&what, "var") {
            let names = names_of_vars(&self.vars);
            join_chars(&names, &bar)
        } else if eq_str(&what, "fn") {
            let names = names_of_funs(&self.funs);
            join_chars(&names, &bar)
        } else if eq_str(&what, "cmd") {
            let names = command_names();
            join_chars(&names, &bar)
        } else {
            str_to_chars("Couldn't list that. Type |help list| for further info.")
        }
    }

    /// Executable mirror of [`spec_run_handler`].
    fn run_handler(&mut self, name: &Vec<char>, args: &Vec<Vec<char>>, fuel: u64) -> (out: Vec<
        char,
    >)
        ensures
            final(self)@ == spec_run_handler(old(self)@, name@, args.deep_view(), fuel as nat).0,
            out@ == spec_run_handler(old(self)@, name@, args.deep_view(), fuel as nat).1,
        decreases fuel, 4int, 0int,
    {
        if eq_str(name, "return") {
            let sp = str_to_chars(" ");
            join_chars(args, &sp)
        } else if eq_str(name, "repeat") {
            self.h_repeat(args, fuel)
        } else if eq_str(name, "help") {
            self.h_help(args)
        } else if eq_str(name, "set") {
            self.h_set(args)
        } else if eq_str(name, "get") {
            let target: Vec<char> = if args.len() > 0 {
                proof {
                    assert(args.deep_view()[0] == args@[0]@);
                }
                clone_piece(&args[0])
            } else {
                Vec::new()
            };
            lookup_var(&self.vars, &target)
        } else if eq_str(name, "ol") {
            self.h_ol(args, fuel)
        } else if eq_str(name, "olc") {
            self.h_olc(args, fuel)
        } else if eq_str(name, "fn") {
            self.h_fn(args)
        } else if eq_str(name, "exec") {
            self.h_exec(args, fuel)
        } else if eq_str(name, "list") {
            self.h_list(args)
        } else if eq_str(name, "replace") {
            self.h_replace(args, fuel)
        } else if eq_str(name, "random") {
            self.h_random(args)
        } else if eq_str(name, "calc") {
            self.h_calc(args, fuel)
        } else if eq_str(name, "if") {
            self.h_if(args, fuel)
        } else {
            Vec::new()
        }
    }

    /// Executable mirror of [`spec_segments`].
    fn run_segments(&mut self, segs: &Vec<Vec<char>>, i: usize, fuel: u64) -> (r: (
        Vec<Vec<char>>,
        bool,
    ))
        requires
            i <= segs.len(),
            fuel >= 1,
        ensures
            ({
                let m = spec_segments(old(self)@, segs.deep_view(), i as int, fuel as nat);
                final(self)@ == m.0 && r.0.deep_view() == m.1 && r.1 == m.2
            }),
        decreases fuel, 2int, segs.len() - i,
    {
        if i >= segs.len() {
            let outs: Vec<Vec<char>> = Vec::new();
            proof {
                assert(outs.deep_view() =~~= Seq::<Seq<char>>::empty());
            }
            (outs, false)
        } else {
            proof {
                assert(segs.deep_view()[i as int] == segs@[i as int]@);
            }
            let toks = split_ws(&segs[i]);
            let name: Vec<char> = if toks.len() > 0 {
                proof {
                    assert(toks.deep_view()[0] == toks@[0]@);
                }
                clone_piece(&toks[0])
            } else {
                Vec::new()
            };
            if is_command(&name) {
                let expanded = self.expand_segment(&segs[i]);
                let et = split_ws(&expanded);
                let cmd_args: Vec<Vec<char>> = if et.len() > 0 {
                    pieces_suffix(&et, 1)
                } else {
                    et
                };
                let h = self.run_handler(&name, &cmd_args, fuel - 1);
                let (rest, _found) = self.run_segments(segs, i + 1, fuel);
                let outs = prepend_piece(h, rest);
                proof {
                    assert(outs.deep_view() =~~= spec_segments(
                        old(self)@,
                        segs.deep_view(),
                        i as int,
                        fuel as nat,
                    ).1);
                }
                (outs, true)
            } else {
                self.run_segments(segs, i + 1, fuel)
            }
        }
    }

    /// Executable mirror of [`spec_command`].
    fn command_fuel(&mut self, input: &Vec<char>, fuel: u64) -> (out: Vec<char>)
        ensures
            final(self)@ == spec_command(old(self)@, input@, fuel as nat).0,
            out@ == spec_command(old(self)@, input@, fuel as nat).1,
        decreases fuel, 5int, 0int,
    {
        if fuel == 0 {
            return str_to_chars("Recursion limit reached!");
        }
        let anda = str_to_chars("&&");
        let segs = split_chars(input, &anda);
        let (outs, found) = self.run_segments(&segs, 0, fuel);
        if found {
            let br = str_to_chars("<br />");
            join_chars(&outs, &br)
        } else {
            str_to_chars("Command not found!")
        }
    }

    /// The sole externally invoked operation: dispatches one input
    /// line against this session's state and returns the rendered
    /// output text.  It never fails: errors come back as ordinary
    /// descriptive text.
    pub fn command(&mut self, input: String) -> (out: String)
        ensures
            final(self)@ == spec_command(old(self)@, input@, MAX_DEPTH as nat).0,
            out@ == spec_command(old(self)@, input@, MAX_DEPTH as nat).1,
    {
        let chars = str_to_chars(input.as_str());
        let out = self.command_fuel(&chars, MAX_DEPTH);
        chars_to_string(&out)
    }

    /// Directive expansion alone: escape tokens, angle-bracket
    /// variable interpolation, `:random MIN-MAX:`, `var(NAME)` and
    /// inline `replace(...)`, in that order.  Only the generator state
    /// moves; the stores stay as they are.
    pub fn replace_info(&mut self, input: String) -> (out: String)
        ensures
            final(self)@ == spec_expand_st(old(self)@, input@).0,
            out@ == spec_expand_st(old(self)@, input@).1,
    {
        let chars = str_to_chars(input.as_str());
        let out = self.expand_segment(&chars);
        chars_to_string(&out)
    }
}

} // verus!
