//! The linker: expand variable references, then lower the result.
//!
//! Expansion substitutes each `Variable` with the value of its binding in
//! the variable graph. A binding read while its own expansion is still in
//! progress collapses to an unknown value with a circular-reference reason,
//! so expansion always ends. The linked value is the lowering of the
//! expanded value.

use vstd::prelude::*;
use crate::value::{JsValue, JsValueV, UnknownReason, deep_list, lemma_deep_list, deep_entries,
    lemma_deep_entries, dup, dup_const, dup_opt};
use crate::graph::{VarGraph, VarGraphV};
use crate::host::{HostAnswers, HostV};
use crate::lower::{lower, lower_value};

verus! {

broadcast use vstd::std_specs::vec::group_vec_axioms, vstd::seq::group_seq_axioms;

/// How many bindings are not yet marked in progress.
pub open spec fn count_false(ip: Seq<bool>) -> nat
    decreases ip,
{
    if ip.len() == 0 {
        0
    } else {
        (if ip.first() {
            0nat
        } else {
            1nat
        }) + count_false(ip.drop_first())
    }
}

/// Marking one more binding lowers the count by one.
pub proof fn lemma_count_false_update(ip: Seq<bool>, i: int)
    requires
        0 <= i < ip.len(),
        !ip[i],
    ensures
        count_false(ip.update(i, true)) == count_false(ip) - 1,
    decreases ip.len(),
{
    if ip.len() > 0 {
        if i == 0 {
            assert(ip.update(0, true).drop_first() =~= ip.drop_first());
        } else {
            assert(ip.update(i, true).first() == ip.first());
            assert(ip.update(i, true).drop_first() =~= ip.drop_first().update(i - 1, true));
            lemma_count_false_update(ip.drop_first(), i - 1);
        }
    }
}

/// Expand each variable reference in `x` to the value of its binding. The
/// flags in `ip` mark the bindings whose expansion is in progress: reading
/// one of them gives an unknown value with a circular-reference reason.
pub open spec fn expand(vals: Seq<JsValueV>, x: JsValueV, ip: Seq<bool>) -> JsValueV
    decreases count_false(ip), x, 1int,
        when ip.len() == vals.len()
{
    match x {
        JsValueV::Variable(id) => {
            if id as int >= vals.len() {
                JsValueV::Unknown(Some(Box::new(x)), UnknownReason::MissingBinding)
            } else if ip[id as int] {
                JsValueV::Unknown(Some(Box::new(x)), UnknownReason::CircularVariableReference)
            } else {
                proof {
                    lemma_count_false_update(ip, id as int);
                }
                expand(vals, vals[id as int], ip.update(id as int, true))
            }
        },
        JsValueV::Array(vs) => JsValueV::Array(expand_list(vals, vs, ip)),
        JsValueV::Object(es) => JsValueV::Object(expand_entries(vals, es, ip)),
        JsValueV::Concat(vs) => JsValueV::Concat(expand_list(vals, vs, ip)),
        JsValueV::Add(vs) => JsValueV::Add(expand_list(vals, vs, ip)),
        JsValueV::Logical(op, vs) => JsValueV::Logical(op, expand_list(vals, vs, ip)),
        JsValueV::Call(f, args) => JsValueV::Call(
            Box::new(expand(vals, *f, ip)),
            expand_list(vals, args, ip),
        ),
        JsValueV::Member(o, p) => JsValueV::Member(
            Box::new(expand(vals, *o, ip)),
            Box::new(expand(vals, *p, ip)),
        ),
        JsValueV::Alternatives(vs) => JsValueV::Alternatives(expand_list(vals, vs, ip)),
        _ => x,
    }
}

/// Expand each element of a list.
pub open spec fn expand_list(vals: Seq<JsValueV>, vs: Seq<JsValueV>, ip: Seq<bool>) -> Seq<
    JsValueV,
>
    decreases count_false(ip), vs, 0int,
        when ip.len() == vals.len()
{
    if vs.len() == 0 {
        Seq::empty()
    } else {
        seq![expand(vals, vs.first(), ip)] + expand_list(vals, vs.drop_first(), ip)
    }
}

/// Expand the value of each object entry.
pub open spec fn expand_entries(
    vals: Seq<JsValueV>,
    es: Seq<(Seq<char>, JsValueV)>,
    ip: Seq<bool>,
) -> Seq<(Seq<char>, JsValueV)>
    decreases count_false(ip), es, 0int,
        when ip.len() == vals.len()
{
    if es.len() == 0 {
        Seq::empty()
    } else {
        seq![(es.first().0, expand(vals, es.first().1, ip))] + expand_entries(
            vals,
            es.drop_first(),
            ip,
        )
    }
}

/// No binding marked: the starting set of the expansion.
pub open spec fn no_marks(n: nat) -> Seq<bool> {
    Seq::new(n, |i: int| false)
}

/// A linked value: variables expanded, then the whole lowered.
pub open spec fn link_value(g: VarGraphV, h: HostV, x: JsValueV) -> JsValueV {
    lower(h, expand(g.values, x, no_marks(g.values.len())))
}

/// `expand_list` maps `expand` elementwise.
pub proof fn lemma_expand_list(vals: Seq<JsValueV>, vs: Seq<JsValueV>, ip: Seq<bool>)
    requires
        ip.len() == vals.len(),
    ensures
        expand_list(vals, vs, ip).len() == vs.len(),
        forall|i: int| 0 <= i < vs.len() ==> expand_list(vals, vs, ip)[i] == expand(
            vals,
            #[trigger] vs[i],
            ip,
        ),
    decreases vs.len(),
{
    if vs.len() > 0 {
        lemma_expand_list(vals, vs.drop_first(), ip);
        assert forall|i: int| 0 <= i < vs.len() implies expand_list(vals, vs, ip)[i] == expand(
            vals,
            #[trigger] vs[i],
            ip,
        ) by {
            if i > 0 {
                assert(expand_list(vals, vs, ip)[i] == expand_list(
                    vals,
                    vs.drop_first(),
                    ip,
                )[i - 1]);
                assert(vs.drop_first()[i - 1] == vs[i]);
            }
        }
    }
}

/// `expand_entries` maps `expand` over the entry values.
pub proof fn lemma_expand_entries(
    vals: Seq<JsValueV>,
    es: Seq<(Seq<char>, JsValueV)>,
    ip: Seq<bool>,
)
    requires
        ip.len() == vals.len(),
    ensures
        expand_entries(vals, es, ip).len() == es.len(),
        forall|i: int| 0 <= i < es.len() ==> expand_entries(vals, es, ip)[i] == (
            (#[trigger] es[i]).0,
            expand(vals, es[i].1, ip),
        ),
    decreases es.len(),
{
    if es.len() > 0 {
        lemma_expand_entries(vals, es.drop_first(), ip);
        assert forall|i: int| 0 <= i < es.len() implies expand_entries(vals, es, ip)[i] == (
            (#[trigger] es[i]).0,
            expand(vals, es[i].1, ip),
        ) by {
            if i > 0 {
                assert(expand_entries(vals, es, ip)[i] == expand_entries(
                    vals,
                    es.drop_first(),
                    ip,
                )[i - 1]);
                assert(es.drop_first()[i - 1] == es[i]);
            }
        }
    }
}

/// Copy the flags with one more binding marked.
fn set_mark(ip: &Vec<bool>, i: usize) -> (r: Vec<bool>)
    requires
        i < ip@.len(),
    ensures
        r@ == ip@.update(i as int, true),
{
    let mut out: Vec<bool> = Vec::new();
    let mut j: usize = 0;
    while j < ip.len()
        invariant
            j <= ip@.len(),
            i < ip@.len(),
            out@.len() == j,
            forall|k: int| 0 <= k < j ==> out@[k] == (if k == i {
                true
            } else {
                ip@[k]
            }),
        decreases ip@.len() - j,
    {
        if j == i {
            out.push(true);
        } else {
            out.push(ip[j]);
        }
        j += 1;
    }
    proof {
        assert(out@ =~= ip@.update(i as int, true));
    }
    out
}

/// Expand variable references, executably.
fn expand_exec(g: &VarGraph, v: &JsValue, ip: &Vec<bool>) -> (r: JsValue)
    requires
        ip@.len() == g.values@.len(),
    ensures
        r@ == expand(g@.values, v@, ip@),
    decreases count_false(ip@), v, 2int,
{
    proof {
        lemma_deep_list(g.values@);
    }
    match v {
        JsValue::Variable(id) => {
            let idu = *id as usize;
            if idu >= g.values.len() {
                let b = Box::new(JsValue::Variable(*id));
                proof {
                    assert((*b)@ == v@);
                    assert(crate::value::opt_deep(Some(b)) == Some(Box::new(v@)));
                }
                let c = JsValue::Unknown(Some(b), UnknownReason::MissingBinding);
                proof {
                    assert(c@ == expand(g@.values, v@, ip@));
                }
                c
            } else if ip[idu] {
                let b = Box::new(JsValue::Variable(*id));
                proof {
                    assert((*b)@ == v@);
                    assert(crate::value::opt_deep(Some(b)) == Some(Box::new(v@)));
                }
                let c = JsValue::Unknown(Some(b), UnknownReason::CircularVariableReference);
                proof {
                    assert(c@ == expand(g@.values, v@, ip@));
                }
                c
            } else {
                let marked = set_mark(ip, idu);
                proof {
                    lemma_count_false_update(ip@, idu as int);
                }
                expand_exec(g, &g.values[idu], &marked)
            }
        },
        JsValue::Array(vs) => {
            let n = expand_exec_list(g, vs, 0, ip);
            proof {
                lemma_expanded_views(g@.values, ip@, vs@, n@);
            }
            JsValue::Array(n)
        },
        JsValue::Object(es) => {
            let n = expand_exec_entries(g, es, 0, ip);
            proof {
                lemma_expanded_entry_views(g@.values, ip@, es@, n@);
            }
            JsValue::Object(n)
        },
        JsValue::Concat(vs) => {
            let n = expand_exec_list(g, vs, 0, ip);
            proof {
                lemma_expanded_views(g@.values, ip@, vs@, n@);
            }
            JsValue::Concat(n)
        },
        JsValue::Add(vs) => {
            let n = expand_exec_list(g, vs, 0, ip);
            proof {
                lemma_expanded_views(g@.values, ip@, vs@, n@);
            }
            JsValue::Add(n)
        },
        JsValue::Logical(op, vs) => {
            let n = expand_exec_list(g, vs, 0, ip);
            proof {
                lemma_expanded_views(g@.values, ip@, vs@, n@);
            }
            JsValue::Logical(*op, n)
        },
        JsValue::Call(f, args) => {
            let nf = expand_exec(g, f, ip);
            let n = expand_exec_list(g, args, 0, ip);
            proof {
                lemma_expanded_views(g@.values, ip@, args@, n@);
            }
            JsValue::Call(Box::new(nf), n)
        },
        JsValue::Member(o, p) => JsValue::Member(
            Box::new(expand_exec(g, o, ip)),
            Box::new(expand_exec(g, p, ip)),
        ),
        JsValue::Alternatives(vs) => {
            let n = expand_exec_list(g, vs, 0, ip);
            proof {
                lemma_expanded_views(g@.values, ip@, vs@, n@);
            }
            JsValue::Alternatives(n)
        },
        other => dup(other),
    }
}

/// Expand the elements of `vs` from index `i` on.
fn expand_exec_list(g: &VarGraph, vs: &Vec<JsValue>, i: usize, ip: &Vec<bool>) -> (r: Vec<
    JsValue,
>)
    requires
        i <= vs@.len(),
        ip@.len() == g.values@.len(),
    ensures
        r@.len() == vs@.len() - i,
        forall|k: int| 0 <= k < r@.len() ==> (#[trigger] r@[k]).deep() == expand(
            g@.values,
            vs@[i + k].deep(),
            ip@,
        ),
    decreases count_false(ip@), vs, vs@.len() - i,
{
    if i == vs.len() {
        Vec::new()
    } else {
        proof {
            assert(decreases_to!(vs => vs@));
            assert(decreases_to!(vs@ => vs@[i as int]));
        }
        let n0 = expand_exec(g, &vs[i], ip);
        let mut rest = expand_exec_list(g, vs, i + 1, ip);
        rest.insert(0, n0);
        rest
    }
}

/// Expand the entry values of `es` from index `i` on.
fn expand_exec_entries(g: &VarGraph, es: &Vec<(String, JsValue)>, i: usize, ip: &Vec<bool>)
    -> (r: Vec<(String, JsValue)>)
    requires
        i <= es@.len(),
        ip@.len() == g.values@.len(),
    ensures
        r@.len() == es@.len() - i,
        forall|k: int| 0 <= k < r@.len() ==> (#[trigger] r@[k]).0 == es@[i + k].0,
        forall|k: int| 0 <= k < r@.len() ==> (#[trigger] r@[k]).1.deep() == expand(
            g@.values,
            es@[i + k].1.deep(),
            ip@,
        ),
    decreases count_false(ip@), es, es@.len() - i,
{
    if i == es.len() {
        Vec::new()
    } else {
        proof {
            assert(decreases_to!(es => es@));
            assert(decreases_to!(es@ => es@[i as int]));
            assert(decreases_to!(es@[i as int] => es@[i as int].1));
        }
        let key = es[i].0.clone();
        let n0 = expand_exec(g, &es[i].1, ip);
        let mut rest = expand_exec_entries(g, es, i + 1, ip);
        rest.insert(0, (key, n0));
        rest
    }
}

/// Elementwise expansion of a vector gives `expand_list` of its view.
proof fn lemma_expanded_views(vals: Seq<JsValueV>, ip: Seq<bool>, orig: Seq<JsValue>, out: Seq<
    JsValue,
>)
    requires
        ip.len() == vals.len(),
        out.len() == orig.len(),
        forall|k: int| 0 <= k < out.len() ==> (#[trigger] out[k]).deep() == expand(
            vals,
            orig[k].deep(),
            ip,
        ),
    ensures
        deep_list(out) == expand_list(vals, deep_list(orig), ip),
{
    lemma_deep_list(out);
    lemma_deep_list(orig);
    lemma_expand_list(vals, deep_list(orig), ip);
    assert forall|k: int| 0 <= k < out.len() implies deep_list(out)[k] == expand_list(
        vals,
        deep_list(orig),
        ip,
    )[k] by {
        assert(deep_list(out)[k] == out[k].deep());
        assert(deep_list(orig)[k] == orig[k].deep());
    }
    assert(deep_list(out) =~= expand_list(vals, deep_list(orig), ip));
}

/// Elementwise expansion of entries gives `expand_entries` of their view.
proof fn lemma_expanded_entry_views(
    vals: Seq<JsValueV>,
    ip: Seq<bool>,
    orig: Seq<(String, JsValue)>,
    out: Seq<(String, JsValue)>,
)
    requires
        ip.len() == vals.len(),
        out.len() == orig.len(),
        forall|k: int| 0 <= k < out.len() ==> (#[trigger] out[k]).0 == orig[k].0,
        forall|k: int| 0 <= k < out.len() ==> (#[trigger] out[k]).1.deep() == expand(
            vals,
            orig[k].1.deep(),
            ip,
        ),
    ensures
        deep_entries(out) == expand_entries(vals, deep_entries(orig), ip),
{
    lemma_deep_entries(out);
    lemma_deep_entries(orig);
    lemma_expand_entries(vals, deep_entries(orig), ip);
    assert forall|k: int| 0 <= k < out.len() implies deep_entries(out)[k] == expand_entries(
        vals,
        deep_entries(orig),
        ip,
    )[k] by {
        assert(deep_entries(out)[k] == (out[k].0@, out[k].1.deep()));
        assert(deep_entries(orig)[k] == (orig[k].0@, orig[k].1.deep()));
    }
    assert(deep_entries(out) =~= expand_entries(vals, deep_entries(orig), ip));
}

/// Link a value against the graph: expand variables, then lower.
pub fn link(g: &VarGraph, h: &HostAnswers, v: &JsValue) -> (r: JsValue)
    ensures
        r@ == link_value(g@, h@, v@),
{
    let mut ip: Vec<bool> = Vec::new();
    let mut i: usize = 0;
    while i < g.values.len()
        invariant
            i <= g.values@.len(),
            ip@.len() == i,
            forall|k: int| 0 <= k < i ==> !(#[trigger] ip@[k]),
        decreases g.values@.len() - i,
    {
        ip.push(false);
        i += 1;
    }
    proof {
        lemma_deep_list(g.values@);
        assert(ip@ =~= no_marks(g@.values.len()));
    }
    let e = expand_exec(g, v, &ip);
    lower_value(h, &e)
}

/// No variable reference anywhere in the value; the origins of `Unknown`
/// values are descriptive only and are not counted.
pub open spec fn no_vars(x: JsValueV) -> bool
    decreases x,
{
    match x {
        JsValueV::Variable(_) => false,
        JsValueV::Array(vs) => no_vars_list(vs),
        JsValueV::Object(es) => no_vars_entries(es),
        JsValueV::Concat(vs) => no_vars_list(vs),
        JsValueV::Add(vs) => no_vars_list(vs),
        JsValueV::Logical(_op, vs) => no_vars_list(vs),
        JsValueV::Call(f, args) => no_vars(*f) && no_vars_list(args),
        JsValueV::Member(o, p) => no_vars(*o) && no_vars(*p),
        JsValueV::Alternatives(vs) => no_vars_list(vs),
        _ => true,
    }
}

/// No variable reference in any element.
pub open spec fn no_vars_list(vs: Seq<JsValueV>) -> bool
    decreases vs,
{
    if vs.len() == 0 {
        true
    } else {
        no_vars(vs.first()) && no_vars_list(vs.drop_first())
    }
}

/// No variable reference in any entry value.
pub open spec fn no_vars_entries(es: Seq<(Seq<char>, JsValueV)>) -> bool
    decreases es,
{
    if es.len() == 0 {
        true
    } else {
        no_vars(es.first().1) && no_vars_entries(es.drop_first())
    }
}

/// Expansion leaves no variable reference behind.
pub proof fn lemma_expand_no_vars(vals: Seq<JsValueV>, x: JsValueV, ip: Seq<bool>)
    requires
        ip.len() == vals.len(),
    ensures
        no_vars(expand(vals, x, ip)),
    decreases count_false(ip), x, 1int,
{
    match x {
        JsValueV::Variable(id) => {
            if id as int >= vals.len() {
            } else if ip[id as int] {
            } else {
                lemma_count_false_update(ip, id as int);
                lemma_expand_no_vars(vals, vals[id as int], ip.update(id as int, true));
            }
        },
        JsValueV::Array(vs) => lemma_expand_no_vars_list(vals, vs, ip),
        JsValueV::Object(es) => lemma_expand_no_vars_entries(vals, es, ip),
        JsValueV::Concat(vs) => lemma_expand_no_vars_list(vals, vs, ip),
        JsValueV::Add(vs) => lemma_expand_no_vars_list(vals, vs, ip),
        JsValueV::Logical(_op, vs) => lemma_expand_no_vars_list(vals, vs, ip),
        JsValueV::Call(f, args) => {
            lemma_expand_no_vars(vals, *f, ip);
            lemma_expand_no_vars_list(vals, args, ip);
        },
        JsValueV::Member(o, p) => {
            lemma_expand_no_vars(vals, *o, ip);
            lemma_expand_no_vars(vals, *p, ip);
        },
        JsValueV::Alternatives(vs) => lemma_expand_no_vars_list(vals, vs, ip),
        _ => {},
    }
}

/// Expansion leaves no variable reference in any element.
proof fn lemma_expand_no_vars_list(vals: Seq<JsValueV>, vs: Seq<JsValueV>, ip: Seq<bool>)
    requires
        ip.len() == vals.len(),
    ensures
        no_vars_list(expand_list(vals, vs, ip)),
    decreases count_false(ip), vs, 0int,
{
    if vs.len() > 0 {
        lemma_expand_no_vars(vals, vs.first(), ip);
        lemma_expand_no_vars_list(vals, vs.drop_first(), ip);
        assert(expand_list(vals, vs, ip).first() == expand(vals, vs.first(), ip));
        assert(expand_list(vals, vs, ip).drop_first() =~= expand_list(
            vals,
            vs.drop_first(),
            ip,
        ));
    }
}

/// Expansion leaves no variable reference in any entry value.
proof fn lemma_expand_no_vars_entries(vals: Seq<JsValueV>, es: Seq<(Seq<char>, JsValueV)>,
    ip: Seq<bool>)
    requires
        ip.len() == vals.len(),
    ensures
        no_vars_entries(expand_entries(vals, es, ip)),
    decreases count_false(ip), es, 0int,
{
    if es.len() > 0 {
        lemma_expand_no_vars(vals, es.first().1, ip);
        lemma_expand_no_vars_entries(vals, es.drop_first(), ip);
        assert(expand_entries(vals, es, ip).first() == (
            es.first().0,
            expand(vals, es.first().1, ip),
        ));
        assert(expand_entries(vals, es, ip).drop_first() =~= expand_entries(
            vals,
            es.drop_first(),
            ip,
        ));
    }
}

/// Expansion is the identity on a value with no variable references.
pub proof fn lemma_expand_id(vals: Seq<JsValueV>, x: JsValueV, ip: Seq<bool>)
    requires
        ip.len() == vals.len(),
        no_vars(x),
    ensures
        expand(vals, x, ip) == x,
    decreases x,
{
    match x {
        JsValueV::Array(vs) => lemma_expand_id_list(vals, vs, ip),
        JsValueV::Object(es) => lemma_expand_id_entries(vals, es, ip),
        JsValueV::Concat(vs) => lemma_expand_id_list(vals, vs, ip),
        JsValueV::Add(vs) => lemma_expand_id_list(vals, vs, ip),
        JsValueV::Logical(_op, vs) => lemma_expand_id_list(vals, vs, ip),
        JsValueV::Call(f, args) => {
            lemma_expand_id(vals, *f, ip);
            lemma_expand_id_list(vals, args, ip);
        },
        JsValueV::Member(o, p) => {
            lemma_expand_id(vals, *o, ip);
            lemma_expand_id(vals, *p, ip);
        },
        JsValueV::Alternatives(vs) => lemma_expand_id_list(vals, vs, ip),
        _ => {},
    }
}

/// Expansion is the identity on a list of values without variables.
proof fn lemma_expand_id_list(vals: Seq<JsValueV>, vs: Seq<JsValueV>, ip: Seq<bool>)
    requires
        ip.len() == vals.len(),
        no_vars_list(vs),
    ensures
        expand_list(vals, vs, ip) == vs,
    decreases vs,
{
    if vs.len() > 0 {
        lemma_expand_id(vals, vs.first(), ip);
        lemma_expand_id_list(vals, vs.drop_first(), ip);
        assert(expand_list(vals, vs, ip) =~= vs);
    }
}

/// Expansion is the identity on entries whose values have no variables.
proof fn lemma_expand_id_entries(vals: Seq<JsValueV>, es: Seq<(Seq<char>, JsValueV)>,
    ip: Seq<bool>)
    requires
        ip.len() == vals.len(),
        no_vars_entries(es),
    ensures
        expand_entries(vals, es, ip) == es,
    decreases es,
{
    if es.len() > 0 {
        lemma_expand_id(vals, es.first().1, ip);
        lemma_expand_id_entries(vals, es.drop_first(), ip);
        assert(expand_entries(vals, es, ip) =~= es);
    }
}

/// The expansion phase of the linker is idempotent: expanding an already
/// expanded value changes nothing.
pub proof fn lemma_expand_idempotent(g: VarGraphV, x: JsValueV)
    ensures
        expand(g.values, expand(g.values, x, no_marks(g.values.len())), no_marks(
            g.values.len(),
        )) == expand(g.values, x, no_marks(g.values.len())),
{
    lemma_expand_no_vars(g.values, x, no_marks(g.values.len()));
    lemma_expand_id(g.values, expand(g.values, x, no_marks(g.values.len())), no_marks(
        g.values.len(),
    ));
}

/// The linker is idempotent: linking a linked value gives the same value.
/// The expansion of a linked value finds no variable to substitute, and
/// the lowering finds no rule left to apply.
pub proof fn lemma_link_idempotent(g: VarGraphV, h: HostV, x: JsValueV)
    ensures
        link_value(g, h, link_value(g, h, x)) == link_value(g, h, x),
{
    let marks = no_marks(g.values.len());
    let e = expand(g.values, x, marks);
    lemma_expand_no_vars(g.values, x, marks);
    let l = lower(h, e);
    crate::lower::lemma_lower_flowed(h, e);
    crate::lower::lemma_flowed_no_vars(l);
    lemma_expand_id(g.values, l, marks);
    crate::lower::lemma_lower_id(h, l);
}

} // verus!
