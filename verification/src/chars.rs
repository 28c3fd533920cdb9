//! Verified utilities over character vectors.
//!
//! All interpreter text lives in `Vec<char>` internally; the spec
//! functions here give each operation a mathematical meaning over
//! `Seq<char>`.

use vstd::prelude::*;

verus! {

use crate::spec_is_space;

/// `pat` occurs in `s` starting at index `i`.
pub open spec fn match_at(s: Seq<char>, pat: Seq<char>, i: int) -> bool {
    0 <= i && i + pat.len() <= s.len() && s.subrange(i, i + pat.len() as int) == pat
}

/// Index of the first occurrence of `c` in `s` at or after `i`;
/// `s.len()` when there is none.
pub open spec fn spec_find_char(s: Seq<char>, c: char, i: int) -> int
    decreases s.len() - i,
{
    if i < 0 || i >= s.len() {
        s.len() as int
    } else if s[i] == c {
        i
    } else {
        spec_find_char(s, c, i + 1)
    }
}

/// Every occurrence of `pat` in `s[i..]` replaced by `rep`, scanning
/// left to right without rescanning replacements.  An empty `pat`
/// inserts `rep` before every character and after the last one, as
/// substring replacement does.
pub open spec fn spec_replace_from(s: Seq<char>, pat: Seq<char>, rep: Seq<char>, i: int) -> Seq<
    char,
>
    decreases s.len() - i,
{
    if i < 0 || i > s.len() {
        Seq::empty()
    } else if pat.len() == 0 {
        if i >= s.len() {
            rep
        } else {
            rep + seq![s[i]] + spec_replace_from(s, pat, rep, i + 1)
        }
    } else if i + pat.len() > s.len() {
        s.subrange(i, s.len() as int)
    } else if match_at(s, pat, i) {
        rep + spec_replace_from(s, pat, rep, i + pat.len() as int)
    } else {
        seq![s[i]] + spec_replace_from(s, pat, rep, i + 1)
    }
}

/// Every occurrence of `pat` in `s` replaced by `rep`.
pub open spec fn spec_replace(s: Seq<char>, pat: Seq<char>, rep: Seq<char>) -> Seq<char> {
    spec_replace_from(s, pat, rep, 0)
}

/// `s[i..]` split on the separator `sep`; empty pieces are kept, so a
/// text without the separator yields exactly one piece.  `cur` is the
/// piece read so far.
pub open spec fn spec_split_acc(s: Seq<char>, sep: Seq<char>, i: int, cur: Seq<char>) -> Seq<
    Seq<char>,
>
    decreases s.len() - i,
{
    if i < 0 || i > s.len() || sep.len() == 0 {
        seq![cur]
    } else if i + sep.len() > s.len() {
        seq![cur + s.subrange(i, s.len() as int)]
    } else if match_at(s, sep, i) {
        seq![cur] + spec_split_acc(s, sep, i + sep.len() as int, Seq::empty())
    } else {
        spec_split_acc(s, sep, i + 1, cur.push(s[i]))
    }
}

/// `s` split on `sep`.
pub open spec fn spec_split(s: Seq<char>, sep: Seq<char>) -> Seq<Seq<char>> {
    spec_split_acc(s, sep, 0, Seq::empty())
}

/// The whitespace-separated tokens of `s[i..]`, with `cur` the token
/// read so far; empty tokens never appear.
pub open spec fn spec_split_ws_acc(s: Seq<char>, i: int, cur: Seq<char>) -> Seq<Seq<char>>
    decreases s.len() - i,
{
    if i < 0 || i >= s.len() {
        if cur.len() == 0 {
            Seq::empty()
        } else {
            seq![cur]
        }
    } else if spec_is_space(s[i]) {
        if cur.len() == 0 {
            spec_split_ws_acc(s, i + 1, cur)
        } else {
            seq![cur] + spec_split_ws_acc(s, i + 1, Seq::empty())
        }
    } else {
        spec_split_ws_acc(s, i + 1, cur.push(s[i]))
    }
}

/// The whitespace-separated tokens of `s`.
pub open spec fn spec_split_ws(s: Seq<char>) -> Seq<Seq<char>> {
    spec_split_ws_acc(s, 0, Seq::empty())
}

/// The pieces joined with `sep` between them.
pub open spec fn spec_join(parts: Seq<Seq<char>>, sep: Seq<char>) -> Seq<char>
    decreases parts.len(),
{
    if parts.len() == 0 {
        Seq::empty()
    } else if parts.len() == 1 {
        parts[0]
    } else {
        parts[0] + sep + spec_join(parts.skip(1), sep)
    }
}

/// `s` without trailing whitespace.
pub open spec fn spec_trim_end(s: Seq<char>) -> Seq<char>
    decreases s.len(),
{
    if s.len() == 0 {
        s
    } else if spec_is_space(s[s.len() - 1]) {
        spec_trim_end(s.take(s.len() - 1))
    } else {
        s
    }
}

/// `s[i..]` without leading whitespace.
pub open spec fn spec_trim_start_from(s: Seq<char>, i: int) -> Seq<char>
    decreases s.len() - i,
{
    if i < 0 || i >= s.len() {
        Seq::empty()
    } else if spec_is_space(s[i]) {
        spec_trim_start_from(s, i + 1)
    } else {
        s.subrange(i, s.len() as int)
    }
}

/// `s` without leading or trailing whitespace.
pub open spec fn spec_trim(s: Seq<char>) -> Seq<char> {
    spec_trim_end(spec_trim_start_from(s, 0))
}

// ---------------------------------------------------------------------
// Executable mirrors.
// ---------------------------------------------------------------------
/// The characters of `s`, in order.
pub fn str_to_chars(s: &str) -> (r: Vec<char>)
    ensures
        r@ == s@,
{
    let n = s.unicode_len();
    let mut r: Vec<char> = Vec::new();
    let mut i: usize = 0;
    while i < n
        invariant
            n == s@.len(),
            i <= n,
            r@ == s@.subrange(0, i as int),
        decreases n - i,
    {
        r.push(s.get_char(i));
        i = i + 1;
        proof {
            assert(r@ =~= s@.subrange(0, i as int));
        }
    }
    proof {
        assert(r@ =~= s@);
    }
    r
}

/// Relies on std's `String` collecting an iterator of `char`s: the
/// resulting string holds exactly those characters in order.
#[verifier::external_body]
pub fn chars_to_string(v: &Vec<char>) -> (r: String)
    ensures
        r@ == v@,
{
    v.iter().collect()
}

/// Appends a copy of `src` to `dst`.
pub fn push_all(dst: &mut Vec<char>, src: &Vec<char>)
    ensures
        final(dst)@ == old(dst)@ + src@,
{
    let mut i: usize = 0;
    while i < src.len()
        invariant
            i <= src.len(),
            dst@ == old(dst)@ + src@.subrange(0, i as int),
        decreases src.len() - i,
    {
        dst.push(src[i]);
        i = i + 1;
        proof {
            assert(dst@ =~= old(dst)@ + src@.subrange(0, i as int));
        }
    }
    proof {
        assert(dst@ =~= old(dst)@ + src@);
    }
}

/// Whether `a` and `b` hold the same characters.
pub fn eq_chars(a: &Vec<char>, b: &Vec<char>) -> (r: bool)
    ensures
        r == (a@ == b@),
{
    if a.len() != b.len() {
        proof {
            assert(a@.len() != b@.len());
        }
        return false;
    }
    let mut i: usize = 0;
    while i < a.len()
        invariant
            a@.len() == b@.len(),
            i <= a.len(),
            forall|j: int| 0 <= j < i ==> a@[j] == b@[j],
        decreases a.len() - i,
    {
        if a[i] != b[i] {
            return false;
        }
        i = i + 1;
    }
    proof {
        assert(a@ =~= b@);
    }
    true
}

/// Whether `v` holds exactly the characters of `s`.
pub fn eq_str(v: &Vec<char>, s: &str) -> (r: bool)
    ensures
        r == (v@ == s@),
{
    let w = str_to_chars(s);
    eq_chars(v, &w)
}

/// Executable mirror of [`match_at`].
pub fn is_match_at(s: &Vec<char>, pat: &Vec<char>, i: usize) -> (r: bool)
    requires
        i <= s.len(),
    ensures
        r == match_at(s@, pat@, i as int),
{
    if pat.len() > s.len() - i {
        return false;
    }
    let mut j: usize = 0;
    while j < pat.len()
        invariant
            i + pat.len() <= s.len(),
            j <= pat.len(),
            forall|k: int| 0 <= k < j ==> s@[i + k] == pat@[k],
        decreases pat.len() - j,
    {
        if s[i + j] != pat[j] {
            proof {
                assert(s@.subrange(i as int, i + pat@.len() as int)[j as int] == s@[i + j]);
            }
            return false;
        }
        j = j + 1;
    }
    proof {
        assert(s@.subrange(i as int, i + pat@.len() as int) =~= pat@);
    }
    true
}

/// Executable mirror of [`spec_find_char`].
pub fn find_char(s: &Vec<char>, c: char, i: usize) -> (r: usize)
    requires
        i <= s.len(),
    ensures
        r == spec_find_char(s@, c, i as int),
        i <= r <= s.len(),
    decreases s.len() - i,
{
    if i >= s.len() {
        s.len()
    } else if s[i] == c {
        i
    } else {
        find_char(s, c, i + 1)
    }
}

/// A list of pieces with `head` put in front of `rest`.
pub fn prepend_piece(head: Vec<char>, rest: Vec<Vec<char>>) -> (r: Vec<Vec<char>>)
    ensures
        r.deep_view() == seq![head@] + rest.deep_view(),
{
    let ghost orig = rest.deep_view();
    let ghost hv = head@;
    let mut r: Vec<Vec<char>> = Vec::new();
    r.push(head);
    proof {
        assert(r.deep_view() =~~= seq![hv]);
    }
    let mut k: usize = 0;
    while k < rest.len()
        invariant
            k <= rest.len(),
            orig == rest.deep_view(),
            r.deep_view() == seq![hv] + orig.subrange(0, k as int),
        decreases rest.len() - k,
    {
        let mut p: Vec<char> = Vec::new();
        push_all(&mut p, &rest[k]);
        let ghost rold = r.deep_view();
        let ghost rold_vec = r@;
        r.push(p);
        k = k + 1;
        proof {
            let d = r.deep_view();
            let t = seq![hv] + orig.subrange(0, k as int);
            assert(r@ == rold_vec.push(p));
            assert(d.len() == r@.len());
            assert(rold.len() == rold_vec.len());
            assert(orig.len() == rest@.len());
            assert(k <= orig.len());
            assert(t.len() == 1 + k);
            assert(d.len() == t.len());
            assert forall|j: int| 0 <= j < d.len() implies d[j] == t[j] by {
                if j < d.len() - 1 {
                    assert(d[j] == rold[j]);
                } else {
                    assert(d[j] =~= p@);
                    assert(t[j] =~= rest@[k - 1]@);
                    assert(p@ =~= rest@[k - 1]@);
                }
            }
            assert(d =~= t);
        }
    }
    proof {
        assert(orig.subrange(0, orig.len() as int) =~~= orig);
        assert(r.deep_view() =~~= seq![hv] + orig);
    }
    r
}

/// Index of the first occurrence of `pat` in `s` at or after `i`;
/// `-1` when there is none.
pub open spec fn spec_find_sub(s: Seq<char>, pat: Seq<char>, i: int) -> int
    decreases s.len() - i,
{
    if pat.len() == 0 || i < 0 || i + pat.len() > s.len() {
        -1
    } else if match_at(s, pat, i) {
        i
    } else {
        spec_find_sub(s, pat, i + 1)
    }
}

/// Executable mirror of [`spec_find_sub`].
pub fn find_sub(s: &Vec<char>, pat: &Vec<char>, i: usize) -> (r: Option<usize>)
    requires
        i <= s.len(),
    ensures
        ({
            let k = spec_find_sub(s@, pat@, i as int);
            (r is Some ==> k == r->0 && i <= r->0 && r->0 + pat@.len() <= s.len()) && (r is None
                ==> k == -1)
        }),
    decreases s.len() - i,
{
    if pat.len() == 0 || pat.len() > s.len() - i {
        None
    } else if is_match_at(s, pat, i) {
        Some(i)
    } else {
        find_sub(s, pat, i + 1)
    }
}

/// Index of the last occurrence of `pat` in `s` at or before `k`;
/// `-1` when there is none.
pub open spec fn spec_rfind_sub(s: Seq<char>, pat: Seq<char>, k: int) -> int
    decreases k + 1,
{
    if k < 0 {
        -1
    } else if match_at(s, pat, k) {
        k
    } else {
        spec_rfind_sub(s, pat, k - 1)
    }
}

/// Executable mirror of [`spec_rfind_sub`], searching down from `k`.
pub fn rfind_sub(s: &Vec<char>, pat: &Vec<char>, k: usize) -> (r: Option<usize>)
    requires
        k <= s.len(),
    ensures
        ({
            let j = spec_rfind_sub(s@, pat@, k as int);
            (r is Some ==> j == r->0 && r->0 <= k && r->0 + pat@.len() <= s.len()) && (r is None
                ==> j == -1)
        }),
    decreases k + 1,
{
    if pat.len() <= s.len() - k && is_match_at(s, pat, k) {
        Some(k)
    } else if k == 0 {
        proof {
            if !match_at(s@, pat@, 0) {
                assert(spec_rfind_sub(s@, pat@, -1) == -1);
            }
        }
        None
    } else {
        rfind_sub(s, pat, k - 1)
    }
}

/// A copy of `s[a..b]`.
pub fn copy_range(s: &Vec<char>, a: usize, b: usize) -> (r: Vec<char>)
    requires
        a <= b <= s.len(),
    ensures
        r@ == s@.subrange(a as int, b as int),
{
    let mut r: Vec<char> = Vec::new();
    let mut j: usize = a;
    while j < b
        invariant
            a <= j <= b <= s.len(),
            r@ == s@.subrange(a as int, j as int),
        decreases b - j,
    {
        r.push(s[j]);
        j = j + 1;
        proof {
            assert(r@ =~= s@.subrange(a as int, j as int));
        }
    }
    r
}

/// The pieces of `v` from index `from` on, as a fresh list.
pub fn pieces_suffix(v: &Vec<Vec<char>>, from: usize) -> (r: Vec<Vec<char>>)
    requires
        from <= v.len(),
    ensures
        r.deep_view() == v.deep_view().skip(from as int),
{
    let mut r: Vec<Vec<char>> = Vec::new();
    let mut k: usize = from;
    proof {
        assert(r.deep_view() =~~= v.deep_view().subrange(from as int, from as int));
    }
    while k < v.len()
        invariant
            from <= k <= v.len(),
            r.deep_view() == v.deep_view().subrange(from as int, k as int),
        decreases v.len() - k,
    {
        let mut p: Vec<char> = Vec::new();
        push_all(&mut p, &v[k]);
        let ghost rold = r.deep_view();
        let ghost rold_vec = r@;
        r.push(p);
        k = k + 1;
        proof {
            let d = r.deep_view();
            let g = v.deep_view().subrange(from as int, k as int);
            assert(r@ == rold_vec.push(r@[r@.len() - 1]));
            assert(d.len() == r@.len());
            assert(rold.len() == rold_vec.len());
            assert(d.len() == g.len());
            assert forall|j: int| 0 <= j < d.len() implies d[j] == g[j] by {
                if j < d.len() - 1 {
                    assert(d[j] == rold[j]);
                } else {
                    assert(d[j] =~= v@[k - 1]@);
                    assert(g[j] =~= v.deep_view()[k - 1]);
                }
            }
            assert(d =~= g);
        }
    }
    proof {
        assert(v.deep_view().subrange(from as int, v.deep_view().len() as int)
            =~~= v.deep_view().skip(from as int));
    }
    r
}

/// The pieces of `v` before index `to`, as a fresh list.
pub fn pieces_prefix(v: &Vec<Vec<char>>, to: usize) -> (r: Vec<Vec<char>>)
    requires
        to <= v.len(),
    ensures
        r.deep_view() == v.deep_view().subrange(0, to as int),
{
    let mut r: Vec<Vec<char>> = Vec::new();
    let mut k: usize = 0;
    proof {
        assert(r.deep_view() =~~= v.deep_view().subrange(0, 0));
    }
    while k < to
        invariant
            k <= to <= v.len(),
            r.deep_view() == v.deep_view().subrange(0, k as int),
        decreases to - k,
    {
        let mut p: Vec<char> = Vec::new();
        push_all(&mut p, &v[k]);
        let ghost rold = r.deep_view();
        let ghost rold_vec = r@;
        r.push(p);
        k = k + 1;
        proof {
            let d = r.deep_view();
            let g = v.deep_view().subrange(0, k as int);
            assert(r@ == rold_vec.push(r@[r@.len() - 1]));
            assert(d.len() == r@.len());
            assert(rold.len() == rold_vec.len());
            assert(d.len() == g.len());
            assert forall|j: int| 0 <= j < d.len() implies d[j] == g[j] by {
                if j < d.len() - 1 {
                    assert(d[j] == rold[j]);
                } else {
                    assert(d[j] =~= v@[k - 1]@);
                    assert(g[j] =~= v.deep_view()[k - 1]);
                }
            }
            assert(d =~= g);
        }
    }
    r
}

/// Executable mirror of [`spec_replace`].
pub fn replace_chars(s: &Vec<char>, pat: &Vec<char>, rep: &Vec<char>) -> (r: Vec<char>)
    ensures
        r@ == spec_replace(s@, pat@, rep@),
{
    replace_from(s, pat, rep, 0)
}

fn replace_from(s: &Vec<char>, pat: &Vec<char>, rep: &Vec<char>, i: usize) -> (r: Vec<char>)
    requires
        i <= s.len(),
    ensures
        r@ == spec_replace_from(s@, pat@, rep@, i as int),
    decreases s.len() - i,
{
    if pat.len() == 0 {
        if i >= s.len() {
            let mut r: Vec<char> = Vec::new();
            push_all(&mut r, rep);
            proof {
                assert(r@ =~= rep@);
            }
            r
        } else {
            let mut r: Vec<char> = Vec::new();
            push_all(&mut r, rep);
            r.push(s[i]);
            let mut rest = replace_from(s, pat, rep, i + 1);
            r.append(&mut rest);
            proof {
                assert(r@ =~= rep@ + seq![s@[i as int]] + spec_replace_from(
                    s@,
                    pat@,
                    rep@,
                    i + 1,
                ));
            }
            r
        }
    } else if pat.len() > s.len() - i {
        let mut r: Vec<char> = Vec::new();
        let mut j: usize = i;
        while j < s.len()
            invariant
                i <= j <= s.len(),
                r@ == s@.subrange(i as int, j as int),
            decreases s.len() - j,
        {
            r.push(s[j]);
            j = j + 1;
            proof {
                assert(r@ =~= s@.subrange(i as int, j as int));
            }
        }
        r
    } else if is_match_at(s, pat, i) {
        let mut r: Vec<char> = Vec::new();
        push_all(&mut r, rep);
        let mut rest = replace_from(s, pat, rep, i + pat.len());
        r.append(&mut rest);
        proof {
            assert(r@ =~= rep@ + spec_replace_from(s@, pat@, rep@, i + pat@.len() as int));
        }
        r
    } else {
        let mut r: Vec<char> = Vec::new();
        r.push(s[i]);
        let mut rest = replace_from(s, pat, rep, i + 1);
        r.append(&mut rest);
        proof {
            assert(r@ =~= seq![s@[i as int]] + spec_replace_from(s@, pat@, rep@, i + 1));
        }
        r
    }
}

/// Executable mirror of [`spec_split`].
pub fn split_chars(s: &Vec<char>, sep: &Vec<char>) -> (r: Vec<Vec<char>>)
    ensures
        r.deep_view() == spec_split(s@, sep@),
{
    let cur: Vec<char> = Vec::new();
    split_acc(s, sep, 0, cur)
}

fn split_acc(s: &Vec<char>, sep: &Vec<char>, i: usize, cur: Vec<char>) -> (r: Vec<Vec<char>>)
    requires
        i <= s.len(),
    ensures
        r.deep_view() == spec_split_acc(s@, sep@, i as int, cur@),
    decreases s.len() - i,
{
    if sep.len() == 0 {
        let r = prepend_piece(cur, Vec::new());
        proof {
            assert(r.deep_view() =~~= spec_split_acc(s@, sep@, i as int, cur@));
        }
        r
    } else if sep.len() > s.len() - i {
        let mut piece = cur;
        let ghost cv = piece@;
        let mut j: usize = i;
        while j < s.len()
            invariant
                i <= j <= s.len(),
                piece@ == cv + s@.subrange(i as int, j as int),
            decreases s.len() - j,
        {
            piece.push(s[j]);
            j = j + 1;
            proof {
                assert(piece@ =~= cv + s@.subrange(i as int, j as int));
            }
        }
        let r = prepend_piece(piece, Vec::new());
        proof {
            assert(r.deep_view() =~~= spec_split_acc(s@, sep@, i as int, cv));
        }
        r
    } else if is_match_at(s, sep, i) {
        let empty: Vec<char> = Vec::new();
        let rest = split_acc(s, sep, i + sep.len(), empty);
        let ghost cv = cur@;
        let r = prepend_piece(cur, rest);
        proof {
            assert(r.deep_view() =~~= spec_split_acc(s@, sep@, i as int, cv));
        }
        r
    } else {
        let mut cur2 = cur;
        cur2.push(s[i]);
        split_acc(s, sep, i + 1, cur2)
    }
}

/// Executable mirror of [`spec_split_ws`].
pub fn split_ws(s: &Vec<char>) -> (r: Vec<Vec<char>>)
    ensures
        r.deep_view() == spec_split_ws(s@),
{
    let cur: Vec<char> = Vec::new();
    split_ws_acc(s, 0, cur)
}

fn split_ws_acc(s: &Vec<char>, i: usize, cur: Vec<char>) -> (r: Vec<Vec<char>>)
    requires
        i <= s.len(),
    ensures
        r.deep_view() == spec_split_ws_acc(s@, i as int, cur@),
    decreases s.len() - i,
{
    if i >= s.len() {
        if cur.len() == 0 {
            let r: Vec<Vec<char>> = Vec::new();
            proof {
                assert(r.deep_view() =~~= Seq::<Seq<char>>::empty());
            }
            r
        } else {
            let ghost cv = cur@;
            let r = prepend_piece(cur, Vec::new());
            proof {
                assert(r.deep_view() =~~= spec_split_ws_acc(s@, i as int, cv));
            }
            r
        }
    } else if is_space_ch(s[i]) {
        if cur.len() == 0 {
            split_ws_acc(s, i + 1, cur)
        } else {
            let empty: Vec<char> = Vec::new();
            let rest = split_ws_acc(s, i + 1, empty);
            let ghost cv = cur@;
            let r = prepend_piece(cur, rest);
            proof {
                assert(r.deep_view() =~~= spec_split_ws_acc(s@, i as int, cv));
            }
            r
        }
    } else {
        let mut cur2 = cur;
        cur2.push(s[i]);
        split_ws_acc(s, i + 1, cur2)
    }
}

/// Executable mirror of [`spec_join`].
pub fn join_chars(parts: &Vec<Vec<char>>, sep: &Vec<char>) -> (r: Vec<char>)
    ensures
        r@ == spec_join(parts.deep_view(), sep@),
{
    let r = join_from(parts, sep, 0);
    proof {
        assert(parts.deep_view().skip(0) =~~= parts.deep_view());
    }
    r
}

fn join_from(parts: &Vec<Vec<char>>, sep: &Vec<char>, i: usize) -> (r: Vec<char>)
    requires
        i <= parts.len(),
    ensures
        r@ == spec_join(parts.deep_view().skip(i as int), sep@),
    decreases parts.len() - i,
{
    if i >= parts.len() {
        let r: Vec<char> = Vec::new();
        proof {
            assert(parts.deep_view().skip(i as int) =~= Seq::<Seq<char>>::empty());
        }
        r
    } else if i == parts.len() - 1 {
        let mut r: Vec<char> = Vec::new();
        push_all(&mut r, &parts[i]);
        proof {
            assert(parts.deep_view().skip(i as int).len() == 1);
            assert(parts.deep_view().skip(i as int)[0] == parts.deep_view()[i as int]);
            assert(r@ =~= parts.deep_view()[i as int]);
        }
        r
    } else {
        let mut r: Vec<char> = Vec::new();
        push_all(&mut r, &parts[i]);
        push_all(&mut r, sep);
        let mut rest = join_from(parts, sep, i + 1);
        r.append(&mut rest);
        proof {
            let pv = parts.deep_view();
            assert(pv.skip(i as int).len() > 1);
            assert(pv.skip(i as int)[0] == pv[i as int]);
            assert(pv.skip(i as int).skip(1) =~= pv.skip(i + 1));
            assert(r@ =~= pv[i as int] + sep@ + spec_join(pv.skip(i + 1), sep@));
        }
        r
    }
}

/// Executable mirror of [`spec_trim`].
pub fn trim_chars(s: &Vec<char>) -> (r: Vec<char>)
    ensures
        r@ == spec_trim(s@),
{
    let started = trim_start(s, 0);
    trim_end(started)
}

fn trim_start(s: &Vec<char>, i: usize) -> (r: Vec<char>)
    requires
        i <= s.len(),
    ensures
        r@ == spec_trim_start_from(s@, i as int),
    decreases s.len() - i,
{
    if i >= s.len() {
        Vec::new()
    } else if is_space_ch(s[i]) {
        trim_start(s, i + 1)
    } else {
        let mut r: Vec<char> = Vec::new();
        let mut j: usize = i;
        while j < s.len()
            invariant
                i <= j <= s.len(),
                r@ == s@.subrange(i as int, j as int),
            decreases s.len() - j,
        {
            r.push(s[j]);
            j = j + 1;
            proof {
                assert(r@ =~= s@.subrange(i as int, j as int));
            }
        }
        r
    }
}

fn trim_end(s: Vec<char>) -> (r: Vec<char>)
    ensures
        r@ == spec_trim_end(s@),
    decreases s.len(),
{
    let mut s = s;
    if s.len() == 0 {
        s
    } else if is_space_ch(s[s.len() - 1]) {
        let ghost sv = s@;
        s.pop();
        proof {
            assert(s@ =~= sv.take(sv.len() - 1));
        }
        trim_end(s)
    } else {
        s
    }
}

use crate::is_space_ch;

} // verus!
