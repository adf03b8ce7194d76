//! The graph builder: from the syntax tree to the variable graph.
//!
//! Each binding maps to a value whose shape mirrors its initializer;
//! imported names map to module values; function parameters become
//! arguments of unknown call sites; and every call or member call appends
//! an effect in source order.

use vstd::prelude::*;
use crate::value::{JsValue, JsValueV, JsConst, ConstV, FreeVarKind, deep_list, lemma_deep_list,
    dup, dup_const};
use crate::graph::{Span, Effect, EffectV, VarGraph, VarGraphV, effect_views,
    lemma_effect_views};
use crate::ast::{Expr, MemberProp, Callee, VarDeclarator, Stmt, ImportSpecifier, ImportDecl,
    ModuleItem, Module};
use crate::value::{dup_list, lemma_deep_list_push};
use crate::graph::lemma_effect_views_push;
use crate::lower::str_is;

verus! {

broadcast use vstd::std_specs::vec::group_vec_axioms, vstd::seq::group_seq_axioms;

/// The lexical environment: bound names and their binding ids, latest last.
pub type EnvV = Seq<(Seq<char>, u32)>;

/// The view of an executable environment.
pub open spec fn env_view(e: Seq<(String, u32)>) -> EnvV {
    Seq::new(e.len(), |i: int| (e[i].0@, e[i].1))
}

/// The binding a name refers to, if any; the latest binding wins.
pub open spec fn lookup_env(env: EnvV, name: Seq<char>) -> Option<u32>
    decreases env,
{
    if env.len() == 0 {
        None
    } else if env.last().0 == name {
        Some(env.last().1)
    } else {
        lookup_env(env.drop_last(), name)
    }
}

/// The value of a free identifier.
pub open spec fn free_var_of(name: Seq<char>) -> JsValueV {
    if name == "require"@ {
        JsValueV::FreeVar(FreeVarKind::Require)
    } else if name == "__dirname"@ {
        JsValueV::FreeVar(FreeVarKind::Dirname)
    } else if name == "__filename"@ {
        JsValueV::FreeVar(FreeVarKind::Filename)
    } else if name == "process"@ {
        JsValueV::FreeVar(FreeVarKind::NodeProcess)
    } else {
        JsValueV::FreeVar(FreeVarKind::Other)
    }
}

/// The value of an expression, together with the graph grown by the
/// effects and bindings the expression contains.
pub open spec fn conv_expr(e: Expr, env: EnvV, st: VarGraphV) -> (JsValueV, VarGraphV)
    decreases e, 2int,
{
    match e {
        Expr::Lit(c) => (JsValueV::Constant(c@), st),
        Expr::Ident(name) => match lookup_env(env, name@) {
            Some(id) => (JsValueV::Variable(id), st),
            None => (free_var_of(name@), st),
        },
        Expr::Bin { left, right } => {
            let (l, st1) = conv_expr(*left, env, st);
            let (r, st2) = conv_expr(*right, env, st1);
            (JsValueV::Add(seq![l, r]), st2)
        },
        Expr::Member { obj, prop } => {
            let (o, st1) = conv_expr(*obj, env, st);
            let (p, st2) = conv_prop(prop, env, st1);
            (JsValueV::Member(Box::new(o), Box::new(p)), st2)
        },
        Expr::Call { callee, args, span } => {
            match *callee {
                Callee::Expr(ce) => match *ce {
                    Expr::Member { obj, prop } => {
                        let (o, st1) = conv_expr(*obj, env, st);
                        let (p, st2) = conv_prop(prop, env, st1);
                        let (avs, st3) = conv_list(args@, env, st2);
                        let eff = EffectV::MemberCall { obj: o, prop: p, args: avs, span };
                        (
                            JsValueV::Call(
                                Box::new(JsValueV::Member(Box::new(o), Box::new(p))),
                                avs,
                            ),
                            VarGraphV { values: st3.values, effects: st3.effects.push(eff) },
                        )
                    },
                    other => {
                        let (cv, st1) = conv_expr(other, env, st);
                        let (avs, st2) = conv_list(args@, env, st1);
                        let eff = EffectV::Call { func: cv, args: avs, span };
                        (
                            JsValueV::Call(Box::new(cv), avs),
                            VarGraphV { values: st2.values, effects: st2.effects.push(eff) },
                        )
                    },
                },
                Callee::Import => {
                    let cv = JsValueV::FreeVar(FreeVarKind::Import);
                    let (avs, st2) = conv_list(args@, env, st);
                    let eff = EffectV::Call { func: cv, args: avs, span };
                    (
                        JsValueV::Call(Box::new(cv), avs),
                        VarGraphV { values: st2.values, effects: st2.effects.push(eff) },
                    )
                },
            }
        },
        Expr::Array { elems } => {
            let (avs, st1) = conv_list(elems@, env, st);
            (JsValueV::Array(avs), st1)
        },
        Expr::Cond { test, cons, alt } => {
            let (_t, st1) = conv_expr(*test, env, st);
            let (c, st2) = conv_expr(*cons, env, st1);
            let (a, st3) = conv_expr(*alt, env, st2);
            (JsValueV::Alternatives(seq![c, a]), st3)
        },
    }
}

/// The value of a member property key.
pub open spec fn conv_prop(p: MemberProp, env: EnvV, st: VarGraphV) -> (JsValueV, VarGraphV)
    decreases p, 2int,
{
    match p {
        MemberProp::Ident(name) => (JsValueV::Constant(ConstV::Str(name@)), st),
        MemberProp::Computed(e) => conv_expr(*e, env, st),
    }
}

/// The values of a list of expressions, left to right.
pub open spec fn conv_list(es: Seq<Expr>, env: EnvV, st: VarGraphV) -> (Seq<JsValueV>, VarGraphV)
    decreases es, 3int,
{
    if es.len() == 0 {
        (Seq::empty(), st)
    } else {
        let (v, st1) = conv_expr(es.first(), env, st);
        let (vs, st2) = conv_list(es.drop_first(), env, st1);
        (seq![v] + vs, st2)
    }
}

/// Grow the graph by one declarator.
pub open spec fn build_declarator(d: VarDeclarator, env: EnvV, st: VarGraphV) -> (
    EnvV,
    VarGraphV,
)
    decreases d, 3int,
{
    let (v, st1) = match d.init {
        Some(e) => conv_expr(e, env, st),
        None => (JsValueV::Constant(ConstV::Undefined), st),
    };
    match d.name {
        Some(n) => {
            let id = st1.values.len() as u32;
            (
                env.push((n@, id)),
                VarGraphV { values: st1.values.push(v), effects: st1.effects },
            )
        },
        None => (env, st1),
    }
}

/// Grow the graph by one statement.
pub open spec fn build_stmt(s: Stmt, env: EnvV, st: VarGraphV) -> (EnvV, VarGraphV)
    decreases s, 4int,
{
    match s {
        Stmt::VarDecl(ds) => build_declarators(ds@, env, st),
        Stmt::Expr(e) => {
            let (_v, st1) = conv_expr(e, env, st);
            (env, st1)
        },
        Stmt::FnDecl { name: _name, params, body } => {
            let inner = bind_params(params@, 0, env, st);
            let (_env2, st2) = build_stmts(body@, inner.0, inner.1);
            (env, st2)
        },
    }
}

/// Bind each parameter, from index `i` on, to an argument value.
pub open spec fn bind_params(params: Seq<String>, i: int, env: EnvV, st: VarGraphV) -> (
    EnvV,
    VarGraphV,
)
    decreases params.len() - i,
{
    if i < 0 || i >= params.len() {
        (env, st)
    } else {
        let id = st.values.len() as u32;
        bind_params(
            params,
            i + 1,
            env.push((params[i]@, id)),
            VarGraphV {
                values: st.values.push(JsValueV::Argument(i as usize)),
                effects: st.effects,
            },
        )
    }
}

/// Grow the graph by a list of declarators.
pub open spec fn build_declarators(ds: Seq<VarDeclarator>, env: EnvV, st: VarGraphV) -> (
    EnvV,
    VarGraphV,
)
    decreases ds, 4int,
{
    if ds.len() == 0 {
        (env, st)
    } else {
        let (env1, st1) = build_declarator(ds.first(), env, st);
        build_declarators(ds.drop_first(), env1, st1)
    }
}

/// Grow the graph by a list of statements.
pub open spec fn build_stmts(ss: Seq<Stmt>, env: EnvV, st: VarGraphV) -> (EnvV, VarGraphV)
    decreases ss, 5int,
{
    if ss.len() == 0 {
        (env, st)
    } else {
        let (env1, st1) = build_stmt(ss.first(), env, st);
        build_stmts(ss.drop_first(), env1, st1)
    }
}

/// The bindings an import declaration adds.
pub open spec fn build_import(d: ImportDecl, env: EnvV, st: VarGraphV) -> (EnvV, VarGraphV)
    decreases d,
{
    if d.type_only {
        (env, st)
    } else {
        build_specifiers(d.specifiers@, d.src@, env, st)
    }
}

/// The bindings a list of import specifiers adds.
pub open spec fn build_specifiers(ss: Seq<ImportSpecifier>, src: Seq<char>, env: EnvV,
    st: VarGraphV) -> (EnvV, VarGraphV)
    decreases ss,
{
    if ss.len() == 0 {
        (env, st)
    } else {
        let (env1, st1) = build_specifier(ss.first(), src, env, st);
        build_specifiers(ss.drop_first(), src, env1, st1)
    }
}

/// The binding one import specifier adds.
pub open spec fn build_specifier(s: ImportSpecifier, src: Seq<char>, env: EnvV, st: VarGraphV)
    -> (EnvV, VarGraphV) {
    match s {
        ImportSpecifier::Named { local, imported, is_type_only } => {
            if is_type_only {
                (env, st)
            } else {
                let picked = match imported {
                    Some(n) => n@,
                    None => local@,
                };
                let v = JsValueV::Member(
                    Box::new(JsValueV::Module(src)),
                    Box::new(JsValueV::Constant(ConstV::Str(picked))),
                );
                let id = st.values.len() as u32;
                (
                    env.push((local@, id)),
                    VarGraphV { values: st.values.push(v), effects: st.effects },
                )
            }
        },
        ImportSpecifier::Default { local } => {
            let v = JsValueV::Member(
                Box::new(JsValueV::Module(src)),
                Box::new(JsValueV::Constant(ConstV::Str("default"@))),
            );
            let id = st.values.len() as u32;
            (
                env.push((local@, id)),
                VarGraphV { values: st.values.push(v), effects: st.effects },
            )
        },
        ImportSpecifier::Namespace { local } => {
            let v = JsValueV::Module(src);
            let id = st.values.len() as u32;
            (
                env.push((local@, id)),
                VarGraphV { values: st.values.push(v), effects: st.effects },
            )
        },
    }
}

/// Grow the graph by one top-level item.
pub open spec fn build_item(it: ModuleItem, env: EnvV, st: VarGraphV) -> (EnvV, VarGraphV)
    decreases it,
{
    match it {
        ModuleItem::Import(d) => build_import(d, env, st),
        ModuleItem::ExportNamed { src: _src } => (env, st),
        ModuleItem::ExportAll { src: _src } => (env, st),
        ModuleItem::Stmt(s) => build_stmt(s, env, st),
    }
}

/// Grow the graph by a list of top-level items.
pub open spec fn build_items(its: Seq<ModuleItem>, env: EnvV, st: VarGraphV) -> (EnvV, VarGraphV)
    decreases its,
{
    if its.len() == 0 {
        (env, st)
    } else {
        let (env1, st1) = build_item(its.first(), env, st);
        build_items(its.drop_first(), env1, st1)
    }
}

/// The empty graph.
pub open spec fn empty_graph() -> VarGraphV {
    VarGraphV { values: Seq::empty(), effects: Seq::empty() }
}

/// The variable graph of a whole module.
pub open spec fn graph_of(m: Module) -> VarGraphV {
    build_items(m.items@, Seq::empty(), empty_graph()).1
}

/// Look a name up in the executable environment; the latest binding wins.
fn lookup_env_exec(env: &Vec<(String, u32)>, name: &String) -> (r: Option<u32>)
    ensures
        r == lookup_env(env_view(env@), name@),
{
    let ghost ev = env_view(env@);
    let mut i: usize = env.len();
    proof {
        assert(ev.take(i as int) =~= ev);
    }
    while i > 0
        invariant
            ev == env_view(env@),
            i <= env@.len(),
            ev.len() == env@.len(),
            lookup_env(ev, name@) == lookup_env(ev.take(i as int), name@),
        decreases i,
    {
        proof {
            assert(ev.take(i as int).last() == ev[i - 1]);
            assert(ev[i - 1] == (env@[i - 1].0@, env@[i - 1].1));
            assert(ev.take(i as int).drop_last() =~= ev.take(i as int - 1));
        }
        if env[i - 1].0.eq(name) {
            return Some(env[i - 1].1);
        }
        i -= 1;
    }
    proof {
        assert(ev.take(0) =~= Seq::<(Seq<char>, u32)>::empty());
    }
    None
}

/// The value of a free identifier, executably.
fn free_var_exec(name: &String) -> (r: JsValue)
    ensures
        r@ == free_var_of(name@),
{
    if str_is(name, "require") {
        JsValue::FreeVar(FreeVarKind::Require)
    } else if str_is(name, "__dirname") {
        JsValue::FreeVar(FreeVarKind::Dirname)
    } else if str_is(name, "__filename") {
        JsValue::FreeVar(FreeVarKind::Filename)
    } else if str_is(name, "process") {
        JsValue::FreeVar(FreeVarKind::NodeProcess)
    } else {
        JsValue::FreeVar(FreeVarKind::Other)
    }
}

/// Append one effect to the graph.
fn push_effect(g: VarGraph, e: Effect) -> (r: VarGraph)
    ensures
        r@ == (VarGraphV { values: g@.values, effects: g@.effects.push(e@) }),
{
    proof {
        lemma_effect_views_push(g.effects@, e);
    }
    let mut g = g;
    g.effects.push(e);
    g
}

/// Append one binding value to the graph.
fn push_value(g: VarGraph, v: JsValue) -> (r: VarGraph)
    ensures
        r@ == (VarGraphV { values: g@.values.push(v@), effects: g@.effects }),
{
    proof {
        lemma_deep_list_push(g.values@, v);
    }
    let mut g = g;
    g.values.push(v);
    g
}

/// The value of an expression, growing the graph, executably.
fn conv_expr_exec(e: &Expr, env: &Vec<(String, u32)>, g: VarGraph) -> (r: (JsValue, VarGraph))
    ensures
        r.0@ == conv_expr(*e, env_view(env@), g@).0,
        r.1@ == conv_expr(*e, env_view(env@), g@).1,
    decreases e, 2int,
{
    match e {
        Expr::Lit(c) => {
            proof {
                assert(*e == Expr::Lit(*c));
            }
            (JsValue::Constant(dup_const(c)), g)
        },
        Expr::Ident(name) => {
            proof {
                assert(*e matches Expr::Ident(n) && n == *name);
            }
            match lookup_env_exec(env, name) {
                Some(id) => (JsValue::Variable(id), g),
                None => (free_var_exec(name), g),
            }
        },
        Expr::Bin { left, right } => {
            proof {
                assert(*e == Expr::Bin { left: *left, right: *right });
            }
            let (l, g1) = conv_expr_exec(left, env, g);
            let (rr, g2) = conv_expr_exec(right, env, g1);
            let ghost l0 = l;
            let ghost r0 = rr;
            let mut parts: Vec<JsValue> = Vec::new();
            parts.push(l);
            parts.push(rr);
            proof {
                assert(parts@ =~= seq![l0, r0]);
                lemma_deep_list(parts@);
                assert(deep_list(parts@)[0] == parts@[0].deep());
                assert(deep_list(parts@)[1] == parts@[1].deep());
                assert(deep_list(parts@) =~= seq![l0.deep(), r0.deep()]);
            }
            (JsValue::Add(parts), g2)
        },
        Expr::Member { obj, prop } => {
            proof {
                assert(*e matches Expr::Member { obj: o2, prop: p2 } && o2 == *obj && p2
                    == *prop);
            }
            let (o, g1) = conv_expr_exec(obj, env, g);
            let (p, g2) = conv_prop_exec(prop, env, g1);
            let resv = JsValue::Member(Box::new(o), Box::new(p));
            proof {
                assert(resv@ == conv_expr(*e, env_view(env@), g@).0);
            }
            (resv, g2)
        },
        Expr::Call { callee, args, span } => match &**callee {
            Callee::Expr(ce) => match &**ce {
                Expr::Member { obj, prop } => {
                    proof {
                        assert(*e matches Expr::Call { callee: cb, args: ab, span: sb }
                            && cb == *callee && ab == *args && sb == *span);
                        assert(**callee == Callee::Expr(*ce));
                        assert(**ce matches Expr::Member { obj: ob, prop: pb } && ob == *obj
                            && pb == *prop);
                    }
                    let (o, g1) = conv_expr_exec(obj, env, g);
                    let ghost og = o;
                    let ghost g1g = g1@;
                    let (p, g2) = conv_prop_exec(prop, env, g1);
                    let ghost pg = p;
                    let ghost g2g = g2@;
                    let (avs, g3) = conv_list_exec(args, 0, env, g2);
                    let ghost avsg = avs@;
                    proof {
                        assert(args@.skip(0) =~= args@);
                        let ev = env_view(env@);
                        let sp1 = conv_expr(**obj, ev, g@);
                        assert(og@ == sp1.0 && g1g == sp1.1);
                        let sp2 = conv_prop(*prop, ev, sp1.1);
                        assert(pg@ == sp2.0 && g2g == sp2.1);
                        let sp3 = conv_list(args@, ev, sp2.1);
                        assert(deep_list(avsg) == sp3.0 && g3@ == sp3.1);
                        assert(conv_expr(*e, ev, g@).0 == JsValueV::Call(
                            Box::new(JsValueV::Member(Box::new(sp1.0), Box::new(sp2.0))),
                            sp3.0,
                        ));
                    }
                    let o2 = dup(&o);
                    let p2 = dup(&p);
                    let avs2 = dup_list(&avs);
                    let g4 = push_effect(
                        g3,
                        Effect::MemberCall { obj: o, prop: p, args: avs, span: *span },
                    );
                    let mv = JsValue::Member(Box::new(o2), Box::new(p2));
                    let ghost mvg = mv;
                    let ghost avs2g = avs2@;
                    let resv = JsValue::Call(Box::new(mv), avs2);
                    proof {
                        assert(mvg@ == JsValueV::Member(
                            Box::new(conv_expr(**obj, env_view(env@), g@).0),
                            Box::new(conv_prop(*prop, env_view(env@), conv_expr(
                                **obj,
                                env_view(env@),
                                g@,
                            ).1).0),
                        ));
                        assert(resv@ == JsValueV::Call(Box::new(mvg@), deep_list(avs2g)));
                        assert(resv@ == conv_expr(*e, env_view(env@), g@).0);
                    }
                    (resv, g4)
                },
                _ => {
                    proof {
                        assert(*e matches Expr::Call { callee: cb, args: ab, span: sb }
                            && cb == *callee && ab == *args && sb == *span);
                        assert(**callee == Callee::Expr(*ce));
                    }
                    let (cv, g1) = conv_expr_exec(ce, env, g);
                    let (avs, g2) = conv_list_exec(args, 0, env, g1);
                    proof {
                        assert(args@.skip(0) =~= args@);
                    }
                    let cv2 = dup(&cv);
                    let avs2 = dup_list(&avs);
                    let g3 = push_effect(
                        g2,
                        Effect::Call { func: cv, args: avs, span: *span },
                    );
                    let resv = JsValue::Call(Box::new(cv2), avs2);
                    proof {
                        assert(resv@ == conv_expr(*e, env_view(env@), g@).0);
                    }
                    (resv, g3)
                },
            },
            Callee::Import => {
                proof {
                    assert(*e matches Expr::Call { callee: cb, args: ab, span: sb }
                        && cb == *callee && ab == *args && sb == *span);
                    assert(**callee == Callee::Import);
                }
                let cv = JsValue::FreeVar(FreeVarKind::Import);
                let (avs, g2) = conv_list_exec(args, 0, env, g);
                proof {
                    assert(args@.skip(0) =~= args@);
                }
                let avs2 = dup_list(&avs);
                let g3 = push_effect(
                    g2,
                    Effect::Call { func: cv, args: avs, span: *span },
                );
                let resv = JsValue::Call(
                    Box::new(JsValue::FreeVar(FreeVarKind::Import)),
                    avs2,
                );
                proof {
                    assert(resv@ == conv_expr(*e, env_view(env@), g@).0);
                }
                (resv, g3)
            },
        },
        Expr::Array { elems } => {
            let (avs, g1) = conv_list_exec(elems, 0, env, g);
            proof {
                assert(elems@.skip(0) =~= elems@);
            }
            let resv = JsValue::Array(avs);
            proof {
                assert(resv@ == conv_expr(*e, env_view(env@), g@).0);
            }
            (resv, g1)
        },
        Expr::Cond { test, cons, alt } => {
            proof {
                assert(*e == Expr::Cond { test: *test, cons: *cons, alt: *alt });
            }
            let (_t, g1) = conv_expr_exec(test, env, g);
            let (c, g2) = conv_expr_exec(cons, env, g1);
            let (a, g3) = conv_expr_exec(alt, env, g2);
            let ghost c0 = c;
            let ghost a0 = a;
            let mut parts: Vec<JsValue> = Vec::new();
            parts.push(c);
            parts.push(a);
            proof {
                assert(parts@ =~= seq![c0, a0]);
                lemma_deep_list(parts@);
                assert(deep_list(parts@)[0] == parts@[0].deep());
                assert(deep_list(parts@)[1] == parts@[1].deep());
                assert(deep_list(parts@) =~= seq![c0.deep(), a0.deep()]);
            }
            (JsValue::Alternatives(parts), g3)
        },
    }
}

/// The value of a member property key, executably.
fn conv_prop_exec(p: &MemberProp, env: &Vec<(String, u32)>, g: VarGraph) -> (r: (
    JsValue,
    VarGraph,
))
    ensures
        r.0@ == conv_prop(*p, env_view(env@), g@).0,
        r.1@ == conv_prop(*p, env_view(env@), g@).1,
    decreases p, 2int,
{
    match p {
        MemberProp::Ident(name) => {
            proof {
                assert(*p matches MemberProp::Ident(n) && n == *name);
            }
            (JsValue::Constant(JsConst::Str(name.clone())), g)
        },
        MemberProp::Computed(e) => {
            proof {
                assert(*p matches MemberProp::Computed(b) && b == *e);
            }
            conv_expr_exec(e, env, g)
        },
    }
}

/// The values of the expressions from index `i` on, executably.
fn conv_list_exec(es: &Vec<Expr>, i: usize, env: &Vec<(String, u32)>, g: VarGraph) -> (r: (
    Vec<JsValue>,
    VarGraph,
))
    requires
        i <= es@.len(),
    ensures
        deep_list(r.0@) == conv_list(es@.skip(i as int), env_view(env@), g@).0,
        r.1@ == conv_list(es@.skip(i as int), env_view(env@), g@).1,
    decreases es, 3int, es@.len() - i,
{
    if i == es.len() {
        proof {
            assert(es@.skip(i as int) =~= Seq::<Expr>::empty());
            assert(deep_list(Seq::<JsValue>::empty()) =~= Seq::<JsValueV>::empty());
        }
        (Vec::new(), g)
    } else {
        proof {
            assert(decreases_to!(es => es@));
            assert(decreases_to!(es@ => es@[i as int]));
            assert(es@.skip(i as int).first() == es@[i as int]);
            assert(es@.skip(i as int).drop_first() =~= es@.skip(i as int + 1));
        }
        let (v, g1) = conv_expr_exec(&es[i], env, g);
        let (mut rest, g2) = conv_list_exec(es, i + 1, env, g1);
        let ghost v0 = v;
        let ghost r0 = rest@;
        rest.insert(0, v);
        proof {
            assert(rest@ =~= seq![v0] + r0);
            crate::normalize::lemma_deep_list_concat_pub(seq![v0], r0);
            lemma_deep_list(seq![v0]);
            assert(deep_list(rest@) =~= seq![v0.deep()] + deep_list(r0));
        }
        (rest, g2)
    }
}


/// The imported name a named specifier binds: the alias where one is
/// given, else the local name.
pub fn picked_name_pub(imported: &Option<String>, local: &String) -> (r: String)
    ensures
        r@ == (match *imported {
            Some(n) => n@,
            None => local@,
        }),
{
    match imported {
        Some(n) => n.clone(),
        None => local.clone(),
    }
}

/// Grow the graph by one declarator, executably.
fn build_declarator_exec(d: &VarDeclarator, env: Vec<(String, u32)>, g: VarGraph) -> (r: (
    Vec<(String, u32)>,
    VarGraph,
))
    ensures
        env_view(r.0@) == build_declarator(*d, env_view(env@), g@).0,
        r.1@ == build_declarator(*d, env_view(env@), g@).1,
    decreases d, 3int,
{
    let ghost env0 = env@;
    let (v, g1) = match &d.init {
        Some(e) => {
            proof {
                assert(d.init matches Some(e0) && e0 == *e);
            }
            conv_expr_exec(e, &env, g)
        },
        None => (JsValue::Constant(JsConst::Undefined), g),
    };
    let ghost vg = v;
    match &d.name {
        Some(n) => {
            proof {
                assert(d.name matches Some(n0) && n0 == *n);
            }
            proof {
                lemma_deep_list(g1.values@);
            }
            let id = #[verifier::truncate] (g1.values.len() as u32);
            let g2 = push_value(g1, v);
            let mut env = env;
            env.push((n.clone(), id));
            proof {
                assert(env_view(env@) =~= env_view(env0).push((n@, id)));
            }
            (env, g2)
        },
        None => (env, g1),
    }
}

/// Grow the graph by the declarators from index `i` on, executably.
fn build_declarators_exec(ds: &Vec<VarDeclarator>, i: usize, env: Vec<(String, u32)>,
    g: VarGraph) -> (r: (Vec<(String, u32)>, VarGraph))
    requires
        i <= ds@.len(),
    ensures
        env_view(r.0@) == build_declarators(ds@.skip(i as int), env_view(env@), g@).0,
        r.1@ == build_declarators(ds@.skip(i as int), env_view(env@), g@).1,
    decreases ds, 4int, ds@.len() - i,
{
    if i == ds.len() {
        proof {
            assert(ds@.skip(i as int) =~= Seq::<VarDeclarator>::empty());
        }
        (env, g)
    } else {
        proof {
            assert(decreases_to!(ds => ds@));
            assert(decreases_to!(ds@ => ds@[i as int]));
            assert(ds@.skip(i as int).first() == ds@[i as int]);
            assert(ds@.skip(i as int).drop_first() =~= ds@.skip(i as int + 1));
        }
        let (env1, g1) = build_declarator_exec(&ds[i], env, g);
        build_declarators_exec(ds, i + 1, env1, g1)
    }
}

/// Bind the parameters from index `i` on, executably.
fn bind_params_exec(params: &Vec<String>, i: usize, env: Vec<(String, u32)>, g: VarGraph)
    -> (r: (Vec<(String, u32)>, VarGraph))
    requires
        i <= params@.len(),
    ensures
        env_view(r.0@) == bind_params(params@, i as int, env_view(env@), g@).0,
        r.1@ == bind_params(params@, i as int, env_view(env@), g@).1,
    decreases params@.len() - i,
{
    if i == params.len() {
        (env, g)
    } else {
        let ghost env0 = env@;
        proof {
            lemma_deep_list(g.values@);
        }
        let id = #[verifier::truncate] (g.values.len() as u32);
        let g1 = push_value(g, JsValue::Argument(i));
        let mut env = env;
        env.push((params[i].clone(), id));
        proof {
            assert(env_view(env@) =~= env_view(env0).push((params@[i as int]@, id)));
        }
        bind_params_exec(params, i + 1, env, g1)
    }
}

/// Grow the graph by one statement, executably.
fn build_stmt_exec(s: &Stmt, env: Vec<(String, u32)>, g: VarGraph) -> (r: (
    Vec<(String, u32)>,
    VarGraph,
))
    ensures
        env_view(r.0@) == build_stmt(*s, env_view(env@), g@).0,
        r.1@ == build_stmt(*s, env_view(env@), g@).1,
    decreases s, 4int, 0int,
{
    match s {
        Stmt::VarDecl(ds) => {
            proof {
                assert(*s matches Stmt::VarDecl(d0) && d0 == *ds);
                assert(ds@.skip(0) =~= ds@);
            }
            build_declarators_exec(ds, 0, env, g)
        },
        Stmt::Expr(e) => {
            proof {
                assert(*s matches Stmt::Expr(e0) && e0 == *e);
            }
            let (_v, g1) = conv_expr_exec(e, &env, g);
            (env, g1)
        },
        Stmt::FnDecl { name: _name, params, body } => {
            proof {
                assert(*s matches Stmt::FnDecl { name: n0, params: p0, body: b0 } && p0
                    == *params && b0 == *body);
                assert(params@.skip(0) =~= params@);
            }
            let mut inner: Vec<(String, u32)> = Vec::new();
            let mut j: usize = 0;
            while j < env.len()
                invariant
                    j <= env@.len(),
                    inner@.len() == j,
                    forall|k: int| 0 <= k < j ==> #[trigger] inner@[k] == env@[k],
                decreases env@.len() - j,
            {
                inner.push((env[j].0.clone(), env[j].1));
                j += 1;
            }
            proof {
                assert(inner@ =~= env@);
                assert(env_view(inner@) =~= env_view(env@));
            }
            let (inner1, g1) = bind_params_exec(params, 0, inner, g);
            proof {
                assert(body@.skip(0) =~= body@);
            }
            let (_inner2, g2) = build_stmts_exec(body, 0, inner1, g1);
            (env, g2)
        },
    }
}

/// Grow the graph by the statements from index `i` on, executably.
fn build_stmts_exec(ss: &Vec<Stmt>, i: usize, env: Vec<(String, u32)>, g: VarGraph) -> (r: (
    Vec<(String, u32)>,
    VarGraph,
))
    requires
        i <= ss@.len(),
    ensures
        env_view(r.0@) == build_stmts(ss@.skip(i as int), env_view(env@), g@).0,
        r.1@ == build_stmts(ss@.skip(i as int), env_view(env@), g@).1,
    decreases ss, 5int, ss@.len() - i,
{
    if i == ss.len() {
        proof {
            assert(ss@.skip(i as int) =~= Seq::<Stmt>::empty());
        }
        (env, g)
    } else {
        proof {
            assert(decreases_to!(ss => ss@));
            assert(decreases_to!(ss@ => ss@[i as int]));
            assert(ss@.skip(i as int).first() == ss@[i as int]);
            assert(ss@.skip(i as int).drop_first() =~= ss@.skip(i as int + 1));
        }
        let (env1, g1) = build_stmt_exec(&ss[i], env, g);
        build_stmts_exec(ss, i + 1, env1, g1)
    }
}

/// The binding one import specifier adds, executably.
fn build_specifier_exec(s: &ImportSpecifier, src: &String, env: Vec<(String, u32)>,
    g: VarGraph) -> (r: (Vec<(String, u32)>, VarGraph))
    ensures
        env_view(r.0@) == build_specifier(*s, src@, env_view(env@), g@).0,
        r.1@ == build_specifier(*s, src@, env_view(env@), g@).1,
{
    let ghost env0 = env@;
    match s {
        ImportSpecifier::Named { local, imported, is_type_only } => {
            proof {
                assert(*s matches ImportSpecifier::Named {
                    local: l0,
                    imported: i0,
                    is_type_only: t0,
                } && l0 == *local && i0 == *imported && t0 == *is_type_only);
            }
            if *is_type_only {
                (env, g)
            } else {
                let picked: String = picked_name_pub(imported, local);
                let mv = JsValue::Module(src.clone());
                let kv = JsValue::Constant(JsConst::Str(picked));
                let ghost mvg = mv;
                let ghost kvg = kv;
                let v = JsValue::Member(Box::new(mv), Box::new(kv));
                proof {
                    assert(v@ == JsValueV::Member(Box::new(mvg@), Box::new(kvg@)));
                }
                proof {
                    lemma_deep_list(g.values@);
                }
                let id = #[verifier::truncate] (g.values.len() as u32);
                let g1 = push_value(g, v);
                let mut env = env;
                env.push((local.clone(), id));
                proof {
                    assert(env_view(env@) =~= env_view(env0).push((local@, id)));
                }
                (env, g1)
            }
        },
        ImportSpecifier::Default { local } => {
            proof {
                assert(*s matches ImportSpecifier::Default { local: l0 } && l0 == *local);
            }
            let mv = JsValue::Module(src.clone());
            let kv = JsValue::Constant(JsConst::Str(String::from_str("default")));
            let ghost mvg = mv;
            let ghost kvg = kv;
            let v = JsValue::Member(Box::new(mv), Box::new(kv));
            proof {
                assert(v@ == JsValueV::Member(Box::new(mvg@), Box::new(kvg@)));
            }
            proof {
                lemma_deep_list(g.values@);
            }
            let id = #[verifier::truncate] (g.values.len() as u32);
            let g1 = push_value(g, v);
            let mut env = env;
            env.push((local.clone(), id));
            proof {
                assert(env_view(env@) =~= env_view(env0).push((local@, id)));
            }
            (env, g1)
        },
        ImportSpecifier::Namespace { local } => {
            proof {
                assert(*s matches ImportSpecifier::Namespace { local: l0 } && l0 == *local);
            }
            let v = JsValue::Module(src.clone());
            proof {
                lemma_deep_list(g.values@);
            }
            let id = #[verifier::truncate] (g.values.len() as u32);
            let g1 = push_value(g, v);
            let mut env = env;
            env.push((local.clone(), id));
            proof {
                assert(env_view(env@) =~= env_view(env0).push((local@, id)));
            }
            (env, g1)
        },
    }
}

/// The bindings of the specifiers from index `i` on, executably.
fn build_specifiers_exec(ss: &Vec<ImportSpecifier>, i: usize, src: &String,
    env: Vec<(String, u32)>, g: VarGraph) -> (r: (Vec<(String, u32)>, VarGraph))
    requires
        i <= ss@.len(),
    ensures
        env_view(r.0@) == build_specifiers(ss@.skip(i as int), src@, env_view(env@), g@).0,
        r.1@ == build_specifiers(ss@.skip(i as int), src@, env_view(env@), g@).1,
    decreases ss@.len() - i,
{
    if i == ss.len() {
        proof {
            assert(ss@.skip(i as int) =~= Seq::<ImportSpecifier>::empty());
        }
        (env, g)
    } else {
        proof {
            assert(ss@.skip(i as int).first() == ss@[i as int]);
            assert(ss@.skip(i as int).drop_first() =~= ss@.skip(i as int + 1));
        }
        let (env1, g1) = build_specifier_exec(&ss[i], src, env, g);
        build_specifiers_exec(ss, i + 1, src, env1, g1)
    }
}

/// Grow the graph by one top-level item, executably.
fn build_item_exec(it: &ModuleItem, env: Vec<(String, u32)>, g: VarGraph) -> (r: (
    Vec<(String, u32)>,
    VarGraph,
))
    ensures
        env_view(r.0@) == build_item(*it, env_view(env@), g@).0,
        r.1@ == build_item(*it, env_view(env@), g@).1,
    decreases it,
{
    match it {
        ModuleItem::Import(d) => {
            proof {
                assert(*it matches ModuleItem::Import(d0) && d0 == *d);
                assert(*d == (ImportDecl {
                    src: d.src,
                    type_only: d.type_only,
                    specifiers: d.specifiers,
                }));
            }
            if d.type_only {
                (env, g)
            } else {
                proof {
                    assert(d.specifiers@.skip(0) =~= d.specifiers@);
                }
                build_specifiers_exec(&d.specifiers, 0, &d.src, env, g)
            }
        },
        ModuleItem::ExportNamed { src: _src } => (env, g),
        ModuleItem::ExportAll { src: _src } => (env, g),
        ModuleItem::Stmt(s) => {
            proof {
                assert(*it matches ModuleItem::Stmt(s0) && s0 == *s);
            }
            build_stmt_exec(s, env, g)
        },
    }
}

/// Grow the graph by the items from index `i` on, executably.
fn build_items_exec(its: &Vec<ModuleItem>, i: usize, env: Vec<(String, u32)>, g: VarGraph)
    -> (r: (Vec<(String, u32)>, VarGraph))
    requires
        i <= its@.len(),
    ensures
        env_view(r.0@) == build_items(its@.skip(i as int), env_view(env@), g@).0,
        r.1@ == build_items(its@.skip(i as int), env_view(env@), g@).1,
    decreases its@.len() - i,
{
    if i == its.len() {
        proof {
            assert(its@.skip(i as int) =~= Seq::<ModuleItem>::empty());
        }
        (env, g)
    } else {
        proof {
            assert(its@.skip(i as int).first() == its@[i as int]);
            assert(its@.skip(i as int).drop_first() =~= its@.skip(i as int + 1));
        }
        let (env1, g1) = build_item_exec(&its[i], env, g);
        build_items_exec(its, i + 1, env1, g1)
    }
}

/// Build the variable graph of a whole module.
pub fn create_graph(m: &Module) -> (g: VarGraph)
    ensures
        g@ == graph_of(*m),
{
    let empty = VarGraph { values: Vec::new(), effects: Vec::new() };
    proof {
        assert(empty@.values =~= empty_graph().values);
        assert(empty@.effects =~= empty_graph().effects);
        assert(m.items@.skip(0) =~= m.items@);
        assert(env_view(Seq::<(String, u32)>::empty()) =~= Seq::<(Seq<char>, u32)>::empty());
        assert(*m == (Module { items: m.items, leading_comments: m.leading_comments }));
    }
    let (_env, g) = build_items_exec(&m.items, 0, Vec::new(), empty);
    g
}

} // verus!
