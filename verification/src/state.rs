//! The interpreter's session state: the variable store, the function
//! store, and the pseudo-random generator state.
//!
//! Both stores are append-only for the life of the session: nothing
//! ever removes an entry, and lookups return the first match in
//! insertion order, so a re-declared name shadows nothing — the first
//! binding keeps winning.

use vstd::prelude::*;

verus! {

/// One variable binding.
pub struct Binding {
    pub name: Vec<char>,
    pub value: Vec<char>,
}

/// The mathematical shape of a binding.
#[verifier::ext_equal]
pub ghost struct BindingV {
    pub name: Seq<char>,
    pub value: Seq<char>,
}

impl View for Binding {
    type V = BindingV;

    open spec fn view(&self) -> BindingV {
        BindingV { name: self.name@, value: self.value@ }
    }
}

impl DeepView for Binding {
    type V = BindingV;

    open spec fn deep_view(&self) -> BindingV {
        self.view()
    }
}

/// One user-declared function: a literal, unexpanded body and the
/// ordered parameter names.
pub struct FunDef {
    pub name: Vec<char>,
    pub body: Vec<char>,
    pub params: Vec<Vec<char>>,
}

/// The mathematical shape of a function entry.
#[verifier::ext_equal]
pub ghost struct FunV {
    pub name: Seq<char>,
    pub body: Seq<char>,
    pub params: Seq<Seq<char>>,
}

impl View for FunDef {
    type V = FunV;

    open spec fn view(&self) -> FunV {
        FunV { name: self.name@, body: self.body@, params: self.params.deep_view() }
    }
}

impl DeepView for FunDef {
    type V = FunV;

    open spec fn deep_view(&self) -> FunV {
        self.view()
    }
}

/// The whole session state.
#[verifier::ext_equal]
pub ghost struct StateV {
    pub vars: Seq<BindingV>,
    pub funs: Seq<FunV>,
    pub rng: u64,
}

// ---------------------------------------------------------------------
// Variable lookup: first match in insertion order, `null` on a miss.
// ---------------------------------------------------------------------
/// Value of the first binding of `name` at or after index `i`, or the
/// literal `null` when none exists.
pub open spec fn spec_lookup(vars: Seq<BindingV>, name: Seq<char>, i: int) -> Seq<char>
    decreases vars.len() - i,
{
    if i < 0 || i >= vars.len() {
        "null"@
    } else if vars[i].name == name {
        vars[i].value
    } else {
        spec_lookup(vars, name, i + 1)
    }
}

/// Executable mirror of [`spec_lookup`].
pub fn lookup_var(vars: &Vec<Binding>, name: &Vec<char>) -> (r: Vec<char>)
    ensures
        r@ == spec_lookup(vars.deep_view(), name@, 0),
{
    lookup_var_from(vars, name, 0)
}

fn lookup_var_from(vars: &Vec<Binding>, name: &Vec<char>, i: usize) -> (r: Vec<char>)
    requires
        i <= vars.len(),
    ensures
        r@ == spec_lookup(vars.deep_view(), name@, i as int),
    decreases vars.len() - i,
{
    if i >= vars.len() {
        crate::chars::str_to_chars("null")
    } else if crate::chars::eq_chars(&vars[i].name, name) {
        let mut r: Vec<char> = Vec::new();
        crate::chars::push_all(&mut r, &vars[i].value);
        proof {
            assert(r@ =~= vars.deep_view()[i as int].value);
        }
        r
    } else {
        proof {
            assert(vars.deep_view()[i as int].name == vars@[i as int].name@);
        }
        lookup_var_from(vars, name, i + 1)
    }
}

/// The first function entry named `name` at or after index `i`.
pub open spec fn spec_fun_lookup(funs: Seq<FunV>, name: Seq<char>, i: int) -> Option<FunV>
    decreases funs.len() - i,
{
    if i < 0 || i >= funs.len() {
        None
    } else if funs[i].name == name {
        Some(funs[i])
    } else {
        spec_fun_lookup(funs, name, i + 1)
    }
}

/// The names of all variable bindings, in insertion order.
pub open spec fn spec_var_names(vars: Seq<BindingV>) -> Seq<Seq<char>> {
    vars.map_values(|b: BindingV| b.name)
}

/// The names of all function entries, in insertion order.
pub open spec fn spec_fun_names(funs: Seq<FunV>) -> Seq<Seq<char>> {
    funs.map_values(|f: FunV| f.name)
}

// ---------------------------------------------------------------------
// Pseudo-random numbers: a linear congruential generator.
// ---------------------------------------------------------------------
/// The next generator state: a fixed full-period linear congruence
/// modulo `2^64`.
pub open spec fn spec_rng_next(s: u64) -> u64 {
    (((s as int) * 6364136223846793005 + 1442695040888963407) % 0x1_0000_0000_0000_0000) as u64
}

/// Executable mirror of [`spec_rng_next`].
pub fn rng_next(s: u64) -> (r: u64)
    ensures
        r == spec_rng_next(s),
{
    let t: u128 = (s as u128) * 6364136223846793005u128 + 1442695040888963407u128;
    let m: u128 = t % 0x1_0000_0000_0000_0000u128;
    proof {
        assert(m < 0x1_0000_0000_0000_0000);
        assert(m as int == ((s as int) * 6364136223846793005 + 1442695040888963407)
            % 0x1_0000_0000_0000_0000);
    }
    m as u64
}

/// The integer a fresh generator word `nxt` yields for bounds
/// `min`/`max`: a value in `[min, max)` from the generator's high bits
/// when `min < max`, and `min` itself otherwise.
pub open spec fn spec_sample(nxt: u64, min: i32, max: i32) -> int {
    if min < max {
        (min as int) + ((nxt as int) / 0x2_0000_0000) % ((max as int) - (min as int))
    } else {
        min as int
    }
}

/// Executable mirror of [`spec_sample`]; the result always fits `i32`.
pub fn sample(nxt: u64, min: i32, max: i32) -> (r: i32)
    ensures
        r as int == spec_sample(nxt, min, max),
        min < max ==> min <= r < max,
{
    if min < max {
        let hi: u64 = nxt / 0x2_0000_0000;
        let span: u64 = ((max as i64) - (min as i64)) as u64;
        let m: u64 = hi % span;
        let r: i64 = (min as i64) + (m as i64);
        proof {
            assert(m < span);
            assert(r <= max as i64);
        }
        r as i32
    } else {
        min
    }
}

} // verus!
