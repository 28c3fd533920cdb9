//! Laws of the interpreter, stated and proved against the same spec
//! functions that the public contracts use.

use vstd::prelude::*;

verus! {

use crate::chars::{
    match_at,
    spec_replace,
    spec_replace_from,
    spec_find_sub,
    spec_join,
    spec_split,
};
use crate::state::{BindingV, FunV, StateV, spec_lookup, spec_fun_names};
use crate::registry::spec_is_command;
use crate::expand::{
    spec_scan_angle,
    spec_scan_random,
    spec_scan_var,
    spec_scan_replace,
    spec_random_at,
    spec_expand_rng,
};
use crate::interp::{
    spec_h_set,
    spec_h_get,
    spec_h_fn,
    spec_h_list,
    spec_parse_paren,
    spec_parse_if,
    spec_map_trim,
    spec_expand_st,
    spec_run_handler,
    spec_segments,
    spec_command,
    spec_eval,
    spec_cond,
    spec_repeat_loop,
    spec_exec_args,
};

/// Whether some binding at or after index `i` carries `name`.
pub open spec fn spec_has_binding(vars: Seq<BindingV>, name: Seq<char>, i: int) -> bool
    decreases vars.len() - i,
{
    if i < 0 || i >= vars.len() {
        false
    } else {
        vars[i].name == name || spec_has_binding(vars, name, i + 1)
    }
}

/// Appending a binding leaves every earlier lookup result alone: a
/// lookup of a name that is already bound returns what it returned
/// before, and a lookup of a fresh name finds the new value.
proof fn lemma_lookup_push(vars: Seq<BindingV>, b: BindingV, m: Seq<char>, i: int)
    requires
        0 <= i <= vars.len(),
    ensures
        spec_lookup(vars.push(b), m, i) == if spec_has_binding(vars, m, i) {
            spec_lookup(vars, m, i)
        } else if b.name == m {
            b.value
        } else {
            "null"@
        },
    decreases vars.len() - i,
{
    let w = vars.push(b);
    assert(w.len() == vars.len() + 1);
    if i == vars.len() {
        assert(w[i] == b);
        assert(spec_lookup(w, m, i) == if b.name == m {
            b.value
        } else {
            spec_lookup(w, m, i + 1)
        });
        assert(spec_lookup(w, m, vars.len() as int + 1) == "null"@);
    } else {
        assert(w[i] == vars[i]);
        lemma_lookup_push(vars, b, m, i + 1);
    }
}

/// Law (first-match variable semantics): `set` appends, and `get`
/// returns the first binding in insertion order — so re-`set`-ting an
/// already bound name does not change what `get` returns, while the
/// first `set` of a fresh name is what `get` finds.
pub proof fn lemma_set_then_get(st: StateV, name: Seq<char>, value: Seq<char>, m: Seq<char>)
    ensures
        ({
            let st1 = spec_h_set(st, seq![name, value]).0;
            spec_h_get(st1, seq![m]) == if spec_has_binding(st.vars, m, 0) {
                spec_h_get(st, seq![m])
            } else if name == m {
                value
            } else {
                "null"@
            }
        }),
{
    let b = BindingV { name, value };
    assert(spec_h_set(st, seq![name, value]).0.vars == st.vars.push(b));
    lemma_lookup_push(st.vars, b, m, 0);
}

// ---------------------------------------------------------------------
// Idempotence of the directive expander on fully resolved text.
// ---------------------------------------------------------------------
/// Text with no remaining directive syntax: no escape backslash, no
/// angle bracket, no colon, and neither a `var(` nor a `replace(`
/// opener anywhere.
pub open spec fn spec_fully_resolved(t: Seq<char>) -> bool {
    !t.contains('\\') && !t.contains('<') && !t.contains(':') && spec_find_sub(t, "var("@, 0) == -1
        && spec_find_sub(t, "replace("@, 0) == -1
}

/// A pattern whose first character never occurs in `s` is never
/// replaced.
proof fn lemma_replace_absent(s: Seq<char>, pat: Seq<char>, rep: Seq<char>, i: int)
    requires
        pat.len() >= 1,
        !s.contains(pat[0]),
        0 <= i <= s.len(),
    ensures
        spec_replace_from(s, pat, rep, i) == s.subrange(i, s.len() as int),
    decreases s.len() - i,
{
    if i + pat.len() > s.len() {
    } else {
        if match_at(s, pat, i) {
            assert(s.subrange(i, i + pat.len() as int)[0] == s[i]);
            assert(s[i] == pat[0]);
            assert(s.contains(pat[0]));
        }
        lemma_replace_absent(s, pat, rep, i + 1);
        assert(seq![s[i]] + s.subrange(i + 1, s.len() as int) =~= s.subrange(i, s.len() as int));
    }
}

/// A negative substring search means no match anywhere at or after the
/// start.
proof fn lemma_find_sub_none(s: Seq<char>, pat: Seq<char>, i: int)
    requires
        pat.len() >= 1,
        i >= 0,
        spec_find_sub(s, pat, i) == -1,
    ensures
        forall|j: int| j >= i ==> !match_at(s, pat, j),
    decreases s.len() - i,
{
    if i + pat.len() > s.len() {
        assert forall|j: int| j >= i implies !match_at(s, pat, j) by {}
    } else {
        lemma_find_sub_none(s, pat, i + 1);
        assert forall|j: int| j >= i implies !match_at(s, pat, j) by {
            if j == i {
                assert(spec_find_sub(s, pat, i) != -1 || !match_at(s, pat, i));
            }
        }
    }
}

proof fn lemma_scan_angle_absent(vars: Seq<BindingV>, s: Seq<char>, i: int)
    requires
        !s.contains('<'),
        0 <= i <= s.len(),
    ensures
        spec_scan_angle(vars, s, i) == s.subrange(i, s.len() as int),
    decreases s.len() - i,
{
    if i >= s.len() {
        assert(s.subrange(i, s.len() as int) =~= Seq::<char>::empty());
    } else {
        if s[i] == '<' {
            assert(s.contains('<'));
        }
        lemma_scan_angle_absent(vars, s, i + 1);
        assert(seq![s[i]] + s.subrange(i + 1, s.len() as int) =~= s.subrange(i, s.len() as int));
    }
}

proof fn lemma_scan_random_absent(rng: u64, s: Seq<char>, i: int)
    requires
        !s.contains(':'),
        0 <= i <= s.len(),
    ensures
        spec_scan_random(rng, s, i) == (rng, s.subrange(i, s.len() as int)),
    decreases s.len() - i,
{
    if i >= s.len() {
        assert(s.subrange(i, s.len() as int) =~= Seq::<char>::empty());
    } else {
        reveal_strlit(":random");
        if spec_random_at(s, i) is Some {
            assert(match_at(s, ":random"@, i));
            assert(s.subrange(i, i + ":random"@.len() as int)[0] == s[i]);
            assert(s[i] == ':');
            assert(s.contains(':'));
        }
        lemma_scan_random_absent(rng, s, i + 1);
        assert(seq![s[i]] + s.subrange(i + 1, s.len() as int) =~= s.subrange(i, s.len() as int));
    }
}

proof fn lemma_scan_var_absent(vars: Seq<BindingV>, s: Seq<char>, i: int)
    requires
        forall|j: int| !match_at(s, "var("@, j),
        0 <= i <= s.len(),
    ensures
        spec_scan_var(vars, s, i) == s.subrange(i, s.len() as int),
    decreases s.len() - i,
{
    if i >= s.len() {
        assert(s.subrange(i, s.len() as int) =~= Seq::<char>::empty());
    } else {
        lemma_scan_var_absent(vars, s, i + 1);
        assert(seq![s[i]] + s.subrange(i + 1, s.len() as int) =~= s.subrange(i, s.len() as int));
    }
}

proof fn lemma_scan_replace_absent(s: Seq<char>, i: int)
    requires
        forall|j: int| !match_at(s, "replace("@, j),
        0 <= i <= s.len(),
    ensures
        spec_scan_replace(s, i) == s.subrange(i, s.len() as int),
    decreases s.len() - i,
{
    if i >= s.len() {
        assert(s.subrange(i, s.len() as int) =~= Seq::<char>::empty());
    } else {
        lemma_scan_replace_absent(s, i + 1);
        assert(seq![s[i]] + s.subrange(i + 1, s.len() as int) =~= s.subrange(i, s.len() as int));
    }
}

/// Law (expansion is idempotent on resolved text): running the
/// directive expander over text with no remaining directive syntax
/// returns that text unchanged and leaves the generator state alone.
pub proof fn lemma_expand_resolved_identity(vars: Seq<BindingV>, rng: u64, t: Seq<char>)
    requires
        spec_fully_resolved(t),
    ensures
        spec_expand_rng(vars, rng, t) == (rng, t),
{
    reveal_strlit("\\n");
    reveal_strlit("\\_");
    reveal_strlit("var(");
    reveal_strlit("replace(");
    assert(t.subrange(0, t.len() as int) =~= t);
    lemma_replace_absent(t, "\\n"@, "<br />"@, 0);
    lemma_replace_absent(t, "\\_"@, " "@, 0);
    lemma_scan_angle_absent(vars, t, 0);
    lemma_scan_random_absent(rng, t, 0);
    lemma_find_sub_none(t, "var("@, 0);
    lemma_scan_var_absent(vars, t, 0);
    lemma_find_sub_none(t, "replace("@, 0);
    lemma_scan_replace_absent(t, 0);
}

/// The same law at the session level: the stores and the generator are
/// untouched too.
pub proof fn lemma_replace_info_identity(st: StateV, t: Seq<char>)
    requires
        spec_fully_resolved(t),
    ensures
        spec_expand_st(st, t) == (st, t),
{
    lemma_expand_resolved_identity(st.vars, st.rng, t);
    assert(spec_expand_st(st, t).0 =~~= st);
}

// ---------------------------------------------------------------------
// Declaring a function and listing functions.
// ---------------------------------------------------------------------
/// How often `name` occurs in a name list.
pub open spec fn spec_count_name(names: Seq<Seq<char>>, name: Seq<char>) -> int
    decreases names.len(),
{
    if names.len() == 0 {
        0
    } else {
        spec_count_name(names.drop_last(), name) + if names.last() == name {
            1int
        } else {
            0int
        }
    }
}

/// Law (declare, then list): a successful function declaration appends
/// exactly one entry, so the listed function names are the old ones
/// followed by the new name — its count rises by one per declaration,
/// duplicates included — and `list fn` renders exactly that list.
pub proof fn lemma_declare_then_list(st: StateV, args: Seq<Seq<char>>)
    requires
        args.len() >= 2,
        spec_parse_paren(args[0]) is Some,
        !spec_is_command((spec_parse_paren(args[0])->0).0),
    ensures
        ({
            let name = (spec_parse_paren(args[0])->0).0;
            let st1 = spec_h_fn(st, args).0;
            spec_h_fn(st, args).1 == "Success!"@ && spec_fun_names(st1.funs) == spec_fun_names(
                st.funs,
            ).push(name) && spec_count_name(spec_fun_names(st1.funs), name) == spec_count_name(
                spec_fun_names(st.funs),
                name,
            ) + 1 && spec_h_list(st1, seq!["fn"@]) == spec_join(
                spec_fun_names(st.funs).push(name),
                " | "@,
            )
        }),
{
    let np = spec_parse_paren(args[0])->0;
    let name = np.0;
    let st1 = spec_h_fn(st, args).0;
    let params = spec_map_trim(spec_split(np.1, ","@));
    let body = spec_replace(spec_join(args.skip(1), " "@), "__AND__"@, "&&"@);
    let f = FunV { name, body, params };
    assert(st1.funs == st.funs.push(f));
    assert(spec_fun_names(st1.funs) =~= spec_fun_names(st.funs).push(name));
    let names1 = spec_fun_names(st1.funs);
    assert(names1.drop_last() =~= spec_fun_names(st.funs));
    assert(names1.last() == name);
    reveal_strlit("fn");
    reveal_strlit("var");
    assert("fn"@.len() == 2);
    assert("var"@.len() == 3);
    assert("fn"@ != "var"@);
    assert(seq!["fn"@][0] == "fn"@);
}

// ---------------------------------------------------------------------
// The stores are append-only for the life of the session.
// ---------------------------------------------------------------------
/// `b` carries everything `a` carried, in place: the stores only ever
/// grow at the end.
pub open spec fn st_extends(a: StateV, b: StateV) -> bool {
    a.vars.is_prefix_of(b.vars) && a.funs.is_prefix_of(b.funs)
}

proof fn lemma_extends_refl(a: StateV)
    ensures
        st_extends(a, a),
{
    assert(a.vars =~= a.vars.subrange(0, a.vars.len() as int));
    assert(a.funs =~= a.funs.subrange(0, a.funs.len() as int));
}

proof fn lemma_extends_push_var(a: StateV, b: StateV)
    requires
        b.funs == a.funs,
        exists|x: BindingV| b.vars == a.vars.push(x),
    ensures
        st_extends(a, b),
{
    let x = choose|x: BindingV| b.vars == a.vars.push(x);
    assert(a.vars =~= b.vars.subrange(0, a.vars.len() as int));
    assert(a.funs =~= b.funs.subrange(0, a.funs.len() as int));
}

proof fn lemma_extends_push_fun(a: StateV, b: StateV)
    requires
        b.vars == a.vars,
        exists|x: FunV| b.funs == a.funs.push(x),
    ensures
        st_extends(a, b),
{
    let x = choose|x: FunV| b.funs == a.funs.push(x);
    assert(a.funs =~= b.funs.subrange(0, a.funs.len() as int));
    assert(a.vars =~= b.vars.subrange(0, a.vars.len() as int));
}

proof fn lemma_extends_trans(a: StateV, b: StateV, c: StateV)
    requires
        st_extends(a, b),
        st_extends(b, c),
    ensures
        st_extends(a, c),
{
    assert(a.vars =~= c.vars.subrange(0, a.vars.len() as int));
    assert(a.funs =~= c.funs.subrange(0, a.funs.len() as int));
}

proof fn lemma_eval_extends(st: StateV, s: Seq<char>, i: int, fuel: nat)
    ensures
        st_extends(st, spec_eval(st, s, i, fuel).0),
    decreases fuel, 1int, s.len() - i,
{
    if i < 0 || i >= s.len() {
        lemma_extends_refl(st);
    } else if fuel == 0 {
        lemma_extends_refl(st);
    } else if match_at(s, "eval("@, i) && s.len() - i >= 6 && ({
        let j = crate::chars::spec_find_char(s, ')', i + 6);
        j < s.len() && j > i + 5
    }) {
        let j = crate::chars::spec_find_char(s, ')', i + 6);
        let c = spec_command(st, s.subrange(i + 5, j), (fuel - 1) as nat);
        lemma_command_extends(st, s.subrange(i + 5, j), (fuel - 1) as nat);
        lemma_eval_extends(c.0, s, j + 1, fuel);
        lemma_extends_trans(st, c.0, spec_eval(c.0, s, j + 1, fuel).0);
    } else {
        lemma_eval_extends(st, s, i + 1, fuel);
    }
}

proof fn lemma_cond_extends(st: StateV, text: Seq<char>, fuel: nat)
    ensures
        st_extends(st, spec_cond(st, text, fuel).0),
    decreases fuel, 2int, 0int,
{
    if fuel == 0 {
        lemma_extends_refl(st);
    } else {
        lemma_eval_extends(st, text, 0, fuel);
    }
}

proof fn lemma_repeat_loop_extends(
    st: StateV,
    cmd: Seq<char>,
    idx: Seq<char>,
    i: int,
    n: int,
    fuel: nat,
)
    ensures
        st_extends(st, spec_repeat_loop(st, cmd, idx, i, n, fuel).0),
    decreases fuel, 2int, n - i,
{
    if fuel == 0 || i >= n {
        lemma_extends_refl(st);
    } else {
        let replaced = spec_replace(cmd, seq!['#'] + idx, crate::numtext::spec_fmt_i64(i));
        let e = spec_eval(st, replaced, 0, fuel);
        let c = spec_command(e.0, e.1, (fuel - 1) as nat);
        lemma_eval_extends(st, replaced, 0, fuel);
        lemma_command_extends(e.0, e.1, (fuel - 1) as nat);
        lemma_repeat_loop_extends(c.0, cmd, idx, i + 1, n, fuel);
        lemma_extends_trans(st, e.0, c.0);
        lemma_extends_trans(st, c.0, spec_repeat_loop(c.0, cmd, idx, i + 1, n, fuel).0);
    }
}

proof fn lemma_exec_args_extends(st: StateV, parts: Seq<Seq<char>>, i: int, fuel: nat)
    ensures
        st_extends(st, spec_exec_args(st, parts, i, fuel).0),
    decreases fuel, 2int, parts.len() - i,
{
    if fuel == 0 || i < 0 || i >= parts.len() {
        lemma_extends_refl(st);
    } else {
        let e = spec_eval(st, crate::chars::spec_trim(parts[i]), 0, fuel);
        lemma_eval_extends(st, crate::chars::spec_trim(parts[i]), 0, fuel);
        lemma_exec_args_extends(e.0, parts, i + 1, fuel);
        lemma_extends_trans(st, e.0, spec_exec_args(e.0, parts, i + 1, fuel).0);
    }
}

proof fn lemma_handlers_extend(st: StateV, name: Seq<char>, args: Seq<Seq<char>>, fuel: nat)
    ensures
        st_extends(st, spec_run_handler(st, name, args, fuel).0),
    decreases fuel, 4int, 0int,
{
    lemma_extends_refl(st);
    if name == "repeat"@ {
        if fuel != 0 && args.len() >= 3 {
            let n: int = match crate::numtext::spec_parse_i32(args[0]) {
                Some(v) => v as int,
                None => 1,
            };
            lemma_repeat_loop_extends(st, spec_join(args.skip(2), " "@), args[1], 0, n, fuel);
        }
    } else if name == "set"@ {
        lemma_extends_push_var(st, spec_h_set(st, args).0);
    } else if name == "ol"@ || name == "olc"@ {
        if fuel != 0 {
            lemma_command_extends(st, spec_join(args, " "@), (fuel - 1) as nat);
        }
    } else if name == "fn"@ {
        let r = spec_h_fn(st, args);
        if r.0 != st {
            lemma_extends_push_fun(st, r.0);
        }
    } else if name == "exec"@ {
        if fuel != 0 {
            let tok: Seq<char> = if args.len() > 0 {
                args[0]
            } else {
                Seq::empty()
            };
            match spec_parse_paren(tok) {
                None => {},
                Some(np) => {
                    let ev = spec_exec_args(st, spec_split(np.1, ","@), 0, fuel);
                    lemma_exec_args_extends(st, spec_split(np.1, ","@), 0, fuel);
                    match crate::state::spec_fun_lookup(ev.0.funs, np.0, 0) {
                        None => {},
                        Some(f) => {
                            let body = crate::interp::spec_subst(f.body, f.params, ev.1, 0);
                            lemma_command_extends(ev.0, body, (fuel - 1) as nat);
                            lemma_extends_trans(
                                st,
                                ev.0,
                                spec_command(ev.0, body, (fuel - 1) as nat).0,
                            );
                        },
                    }
                },
            }
        }
    } else if name == "replace"@ {
        if fuel != 0 && args.len() >= 2 {
            lemma_eval_extends(st, spec_join(args.subrange(0, args.len() - 2), " "@), 0, fuel);
        }
    } else if name == "calc"@ {
        if fuel != 0 {
            lemma_eval_extends(st, spec_join(args, " "@), 0, fuel);
        }
    } else if name == "if"@ {
        if fuel != 0 {
            match spec_parse_if(spec_join(args, " "@)) {
                None => {},
                Some(cde) => {
                    let cv = spec_cond(st, cde.0, fuel);
                    lemma_cond_extends(st, cde.0, fuel);
                    match cv.1 {
                        None => {},
                        Some(b) => {
                            let branch = if b {
                                cde.1
                            } else {
                                cde.2
                            };
                            lemma_command_extends(cv.0, branch, (fuel - 1) as nat);
                            lemma_extends_trans(
                                st,
                                cv.0,
                                spec_command(cv.0, branch, (fuel - 1) as nat).0,
                            );
                        },
                    }
                },
            }
        }
    }
}

proof fn lemma_segments_extend(st: StateV, segs: Seq<Seq<char>>, i: int, fuel: nat)
    ensures
        st_extends(st, spec_segments(st, segs, i, fuel).0),
    decreases fuel, 2int, segs.len() - i,
{
    if fuel == 0 || i < 0 || i >= segs.len() {
        lemma_extends_refl(st);
    } else {
        let toks = crate::chars::spec_split_ws(segs[i]);
        let name: Seq<char> = if toks.len() > 0 {
            toks[0]
        } else {
            Seq::empty()
        };
        if spec_is_command(name) {
            let ex = spec_expand_st(st, segs[i]);
            let et = crate::chars::spec_split_ws(ex.1);
            let args: Seq<Seq<char>> = if et.len() > 0 {
                et.skip(1)
            } else {
                et
            };
            let h = spec_run_handler(ex.0, name, args, (fuel - 1) as nat);
            lemma_extends_refl(ex.0);
            assert(st_extends(st, ex.0));
            lemma_handlers_extend(ex.0, name, args, (fuel - 1) as nat);
            lemma_segments_extend(h.0, segs, i + 1, fuel);
            lemma_extends_trans(st, ex.0, h.0);
            lemma_extends_trans(st, h.0, spec_segments(h.0, segs, i + 1, fuel).0);
        } else {
            lemma_segments_extend(st, segs, i + 1, fuel);
        }
    }
}

proof fn lemma_command_extends(st: StateV, input: Seq<char>, fuel: nat)
    ensures
        st_extends(st, spec_command(st, input, fuel).0),
    decreases fuel, 5int, 0int,
{
    if fuel == 0 {
        lemma_extends_refl(st);
    } else {
        lemma_segments_extend(st, spec_split(input, "&&"@), 0, fuel);
    }
}

/// Law (append-only stores): a dispatched command only ever appends to
/// the variable and function stores — every binding and every function
/// entry that existed before the call still stands afterwards, at its
/// old position.
pub proof fn lemma_stores_append_only(st: StateV, input: Seq<char>, fuel: nat)
    ensures
        st.vars.is_prefix_of(spec_command(st, input, fuel).0.vars),
        st.funs.is_prefix_of(spec_command(st, input, fuel).0.funs),
{
    lemma_command_extends(st, input, fuel);
}

} // verus!
