//! Well-known lowering: the sole bridge between syntax and host semantics.
//!
//! The lowering rewrites a value toward canonical well-known forms: free
//! variables become well-known functions and objects or absolute paths,
//! recognized bare specifiers become well-known objects, `require.resolve`
//! calls are answered from the host's resolver table, `path.join` folds its
//! constant arguments, and object and array literals are indexed by constant
//! keys. Rules are matched top down; the first match wins.

use vstd::prelude::*;
use crate::value::{JsValue, JsValueV, JsConst, ConstV, FreeVarKind, FsMethod, SpawnMethod,
    WellKnownFunctionKind, WellKnownObjectKind, UnknownReason, deep_list, lemma_deep_list,
    deep_entries, lemma_deep_entries, dup, dup_list, dup_const, dup_opt};
use crate::normalize::{alt_node, concat_node, add_node, is_str, str_chars, alternatives,
    concat_value, add_value, no_alts, no_concats, distinct, no_adjacent_strs, flatten_alts,
    flatten_concats, dedup, merge_strs, lemma_flatten_alts_id, lemma_flatten_concats_id,
    lemma_dedup_id, lemma_merge_strs_id, lemma_dedup_props, str_merge};
use crate::pattern::{to_pattern, PatternV, pattern_of};
use crate::host::{HostAnswers, HostV, CjsAnswer, CjsAnswerV, lookup_resolve};

verus! {

broadcast use vstd::std_specs::vec::group_vec_axioms, vstd::seq::group_seq_axioms;

/// The absolute-path encoding of a project-relative path.
pub open spec fn abs_path(p: Seq<char>) -> Seq<char> {
    "/ROOT/"@ + p
}

/// The elements interleaved with `"/"` separators, as `path.join` sees
/// them. Segments are joined verbatim: `.` and `..` components are kept
/// as written, not collapsed.
pub open spec fn with_separators(vs: Seq<JsValueV>) -> Seq<JsValueV>
    decreases vs,
{
    if vs.len() == 0 {
        Seq::empty()
    } else if vs.len() == 1 {
        vs
    } else {
        seq![vs.first(), JsValueV::Constant(ConstV::Str("/"@))] + with_separators(
            vs.drop_first(),
        )
    }
}

/// The value of entry `k` of an object literal; the last entry wins.
pub open spec fn lookup_entry(es: Seq<(Seq<char>, JsValueV)>, k: Seq<char>) -> Option<JsValueV>
    decreases es,
{
    if es.len() == 0 {
        None
    } else if es.last().0 == k {
        Some(es.last().1)
    } else {
        lookup_entry(es.drop_last(), k)
    }
}

/// The absolute-path constants for the assets of a resolver answer.
pub open spec fn answer_paths(paths: Seq<Seq<char>>) -> Seq<JsValueV> {
    Seq::new(paths.len(), |i: int| JsValueV::Constant(ConstV::Str(abs_path(paths[i]))))
}

/// The replacement of a `require.resolve(..)` call, per the host's answer.
pub open spec fn resolve_call(h: HostV, x: JsValueV, args: Seq<JsValueV>) -> JsValueV {
    if args.len() == 1 {
        match lookup_resolve(h.resolve, to_pattern(args[0])) {
            CjsAnswerV::Single(path) => JsValueV::Constant(ConstV::Str(abs_path(path))),
            CjsAnswerV::Several(paths) => alt_node(answer_paths(paths)),
            CjsAnswerV::Unresolveable => JsValueV::Unknown(
                Some(Box::new(x)),
                UnknownReason::UnresolveableRequest,
            ),
        }
    } else {
        JsValueV::Unknown(Some(Box::new(x)), UnknownReason::OnlySingleArgumentSupported)
    }
}

/// The well-known object for a recognized bare specifier, if any.
pub open spec fn module_object(name: Seq<char>) -> Option<WellKnownObjectKind> {
    if name == "path"@ {
        Some(WellKnownObjectKind::PathModule)
    } else if name == "fs"@ || name == "fs/promises"@ {
        Some(WellKnownObjectKind::FsModule)
    } else if name == "child_process"@ {
        Some(WellKnownObjectKind::ChildProcess)
    } else if name == "os"@ {
        Some(WellKnownObjectKind::OsModule)
    } else if name == "process"@ {
        Some(WellKnownObjectKind::NodeProcess)
    } else {
        None
    }
}

/// The well-known function for a property of a well-known object, if any.
pub open spec fn member_function(o: WellKnownObjectKind, k: Seq<char>) -> Option<
    WellKnownFunctionKind,
> {
    match o {
        WellKnownObjectKind::PathModule => if k == "join"@ {
            Some(WellKnownFunctionKind::PathJoin)
        } else {
            None
        },
        WellKnownObjectKind::FsModule => if k == "readFile"@ {
            Some(WellKnownFunctionKind::FsReadMethod(FsMethod::ReadFile))
        } else if k == "readFileSync"@ {
            Some(WellKnownFunctionKind::FsReadMethod(FsMethod::ReadFileSync))
        } else {
            None
        },
        WellKnownObjectKind::ChildProcess => if k == "spawn"@ {
            Some(WellKnownFunctionKind::ChildProcessSpawnMethod(SpawnMethod::Spawn))
        } else if k == "spawnSync"@ {
            Some(WellKnownFunctionKind::ChildProcessSpawnMethod(SpawnMethod::SpawnSync))
        } else if k == "fork"@ {
            Some(WellKnownFunctionKind::ChildProcessFork)
        } else {
            None
        },
        _ => None,
    }
}

/// Absorb an operand that is already unknown: keep the first non-null
/// origin, else record the whole operation.
pub open spec fn absorb(x: JsValueV, orig: Option<Box<JsValueV>>, reason: UnknownReason)
    -> JsValueV {
    match orig {
        Some(o) => JsValueV::Unknown(Some(o), reason),
        None => JsValueV::Unknown(Some(Box::new(x)), reason),
    }
}

/// One top-down rule application at a single node. Children are expected to
/// be lowered already; the function returns the node unchanged where no rule
/// matches.
pub open spec fn rule_step(h: HostV, x: JsValueV) -> JsValueV {
    match x {
        JsValueV::Call(f, args) => match *f {
            JsValueV::WellKnownFunction(WellKnownFunctionKind::RequireResolve) => resolve_call(
                h,
                x,
                args,
            ),
            JsValueV::WellKnownFunction(WellKnownFunctionKind::Require) => {
                if args.len() == 1 && is_str(args[0]) {
                    JsValueV::Module(str_chars(args[0]))
                } else {
                    x
                }
            },
            JsValueV::WellKnownFunction(WellKnownFunctionKind::PathJoin) => {
                if args.len() == 0 {
                    JsValueV::Constant(ConstV::Str("."@))
                } else {
                    concat_node(with_separators(args))
                }
            },
            JsValueV::Unknown(orig, reason) => absorb(x, orig, reason),
            _ => x,
        },
        JsValueV::Member(o, p) => match *o {
            JsValueV::WellKnownFunction(WellKnownFunctionKind::Require) => if is_str(*p)
                && str_chars(*p) == "resolve"@ {
                JsValueV::WellKnownFunction(WellKnownFunctionKind::RequireResolve)
            } else {
                x
            },
            JsValueV::WellKnownObject(wko) => if is_str(*p) && member_function(
                wko,
                str_chars(*p),
            ) is Some {
                JsValueV::WellKnownFunction(member_function(wko, str_chars(*p))->Some_0)
            } else {
                x
            },
            JsValueV::Object(es) => if is_str(*p) && lookup_entry(es, str_chars(*p)) is Some {
                lookup_entry(es, str_chars(*p))->Some_0
            } else {
                x
            },
            JsValueV::Array(vs) => match *p {
                JsValueV::Constant(ConstV::Num(i)) => if 0 <= i < vs.len() {
                    vs[i as int]
                } else {
                    x
                },
                _ => x,
            },
            JsValueV::Unknown(orig, reason) => absorb(x, orig, reason),
            _ => x,
        },
        JsValueV::FreeVar(k) => match k {
            FreeVarKind::Dirname => JsValueV::Constant(ConstV::Str(abs_path(h.source_dir))),
            FreeVarKind::Filename => JsValueV::Constant(ConstV::Str(abs_path(h.source_path))),
            FreeVarKind::Require => JsValueV::WellKnownFunction(WellKnownFunctionKind::Require),
            FreeVarKind::Import => JsValueV::WellKnownFunction(WellKnownFunctionKind::Import),
            FreeVarKind::NodeProcess => JsValueV::WellKnownObject(
                WellKnownObjectKind::NodeProcess,
            ),
            FreeVarKind::Other => JsValueV::Unknown(
                Some(Box::new(x)),
                UnknownReason::UnknownGlobal,
            ),
        },
        JsValueV::Module(name) => match module_object(name) {
            Some(wko) => JsValueV::WellKnownObject(wko),
            None => JsValueV::Unknown(Some(Box::new(x)), UnknownReason::CrossModuleAnalyzing),
        },
        JsValueV::Argument(_) => JsValueV::Unknown(
            Some(Box::new(x)),
            UnknownReason::CrossFunctionAnalyzing,
        ),
        _ => x,
    }
}

/// Shallow normalization of one node whose children are normalized.
pub open spec fn nshallow(x: JsValueV) -> JsValueV {
    match x {
        JsValueV::Alternatives(vs) => alt_node(vs),
        JsValueV::Concat(vs) => concat_node(vs),
        JsValueV::Add(vs) => add_node(vs),
        _ => x,
    }
}

/// One lowering step: a rule application followed by shallow normalization.
pub open spec fn lower_step(h: HostV, x: JsValueV) -> JsValueV {
    nshallow(rule_step(h, x))
}

/// Node-level lowering. Two steps settle every rule chain: the longest,
/// `require(..)` of a constant to a module to a well-known object, takes
/// two rewrites.
pub open spec fn lower_node(h: HostV, x: JsValueV) -> JsValueV {
    lower_step(h, lower_step(h, x))
}

/// Lower a whole value, children first. The origins of `Unknown` values are
/// kept as they are: they only describe where a value came from.
pub open spec fn lower(h: HostV, x: JsValueV) -> JsValueV
    decreases x,
{
    lower_node(h, lower_children(h, x))
}

/// Lower the children of one node.
pub open spec fn lower_children(h: HostV, x: JsValueV) -> JsValueV
    decreases x, 1int,
{
    match x {
        JsValueV::Array(vs) => JsValueV::Array(lower_list(h, vs)),
        JsValueV::Object(es) => JsValueV::Object(lower_entries(h, es)),
        JsValueV::Concat(vs) => JsValueV::Concat(lower_list(h, vs)),
        JsValueV::Add(vs) => JsValueV::Add(lower_list(h, vs)),
        JsValueV::Logical(op, vs) => JsValueV::Logical(op, lower_list(h, vs)),
        JsValueV::Call(f, args) => JsValueV::Call(Box::new(lower(h, *f)), lower_list(h, args)),
        JsValueV::Member(o, p) => JsValueV::Member(
            Box::new(lower(h, *o)),
            Box::new(lower(h, *p)),
        ),
        JsValueV::Alternatives(vs) => JsValueV::Alternatives(lower_list(h, vs)),
        _ => x,
    }
}

/// Lower each element of a list.
pub open spec fn lower_list(h: HostV, vs: Seq<JsValueV>) -> Seq<JsValueV>
    decreases vs, 0int,
{
    if vs.len() == 0 {
        Seq::empty()
    } else {
        seq![lower(h, vs.first())] + lower_list(h, vs.drop_first())
    }
}

/// Lower the value of each object entry.
pub open spec fn lower_entries(h: HostV, es: Seq<(Seq<char>, JsValueV)>) -> Seq<
    (Seq<char>, JsValueV),
>
    decreases es, 0int,
{
    if es.len() == 0 {
        Seq::empty()
    } else {
        seq![(es.first().0, lower(h, es.first().1))] + lower_entries(h, es.drop_first())
    }
}

/// `with_separators` interleaves the elements with `"/"` constants.
pub proof fn lemma_with_separators(vs: Seq<JsValueV>)
    ensures
        vs.len() == 0 ==> with_separators(vs).len() == 0,
        vs.len() > 0 ==> with_separators(vs).len() == 2 * vs.len() - 1,
        forall|i: int| 0 <= i < with_separators(vs).len() && i % 2 == 0
            ==> #[trigger] with_separators(vs)[i] == vs[i / 2],
        forall|i: int| 0 <= i < with_separators(vs).len() && i % 2 == 1
            ==> #[trigger] with_separators(vs)[i] == JsValueV::Constant(ConstV::Str("/"@)),
    decreases vs.len(),
{
    if vs.len() > 1 {
        lemma_with_separators(vs.drop_first());
        assert forall|i: int| 0 <= i < with_separators(vs).len() implies (i % 2 == 0
            ==> #[trigger] with_separators(vs)[i] == vs[i / 2]) && (i % 2 == 1
            ==> with_separators(vs)[i] == JsValueV::Constant(ConstV::Str("/"@))) by {
            if i >= 2 {
                assert(with_separators(vs)[i] == with_separators(vs.drop_first())[i - 2]);
                if i % 2 == 0 {
                    assert(vs.drop_first()[(i - 2) / 2] == vs[i / 2]);
                }
            }
        }
    }
}

/// Build an absolute path from a project-relative one.
pub fn make_abs_path(p: &String) -> (r: String)
    ensures
        r@ == abs_path(p@),
{
    let mut s = String::from_str("/ROOT/");
    s.append(p.as_str());
    s
}

/// Compare a string against a literal.
pub(crate) fn str_is(s: &String, lit: &str) -> (r: bool)
    ensures
        r == (s@ == lit@),
{
    *s == lit.to_owned()
}

/// The well-known object for a recognized bare specifier, if any.
fn module_object_of(name: &String) -> (r: Option<WellKnownObjectKind>)
    ensures
        r == module_object(name@),
{
    if str_is(name, "path") {
        Some(WellKnownObjectKind::PathModule)
    } else if str_is(name, "fs") || str_is(name, "fs/promises") {
        Some(WellKnownObjectKind::FsModule)
    } else if str_is(name, "child_process") {
        Some(WellKnownObjectKind::ChildProcess)
    } else if str_is(name, "os") {
        Some(WellKnownObjectKind::OsModule)
    } else if str_is(name, "process") {
        Some(WellKnownObjectKind::NodeProcess)
    } else {
        None
    }
}

/// The well-known function for a property of a well-known object, if any.
fn member_function_of(o: WellKnownObjectKind, k: &String) -> (r: Option<WellKnownFunctionKind>)
    ensures
        r == member_function(o, k@),
{
    match o {
        WellKnownObjectKind::PathModule => if str_is(k, "join") {
            Some(WellKnownFunctionKind::PathJoin)
        } else {
            None
        },
        WellKnownObjectKind::FsModule => if str_is(k, "readFile") {
            Some(WellKnownFunctionKind::FsReadMethod(FsMethod::ReadFile))
        } else if str_is(k, "readFileSync") {
            Some(WellKnownFunctionKind::FsReadMethod(FsMethod::ReadFileSync))
        } else {
            None
        },
        WellKnownObjectKind::ChildProcess => if str_is(k, "spawn") {
            Some(WellKnownFunctionKind::ChildProcessSpawnMethod(SpawnMethod::Spawn))
        } else if str_is(k, "spawnSync") {
            Some(WellKnownFunctionKind::ChildProcessSpawnMethod(SpawnMethod::SpawnSync))
        } else if str_is(k, "fork") {
            Some(WellKnownFunctionKind::ChildProcessFork)
        } else {
            None
        },
        _ => None,
    }
}

/// Find the value of entry `k`; the last entry wins.
fn lookup_entry_exec(es: &Vec<(String, JsValue)>, k: &String) -> (r: Option<JsValue>)
    ensures
        r is Some ==> lookup_entry(deep_entries(es@), k@) == Some((r->0)@),
        r is None ==> lookup_entry(deep_entries(es@), k@) is None,
{
    proof {
        lemma_deep_entries(es@);
    }
    let ghost s = deep_entries(es@);
    let mut i: usize = es.len();
    proof {
        assert(s.take(i as int) =~= s);
    }
    while i > 0
        invariant
            s == deep_entries(es@),
            i <= es@.len(),
            s.len() == es@.len(),
            forall|j: int| 0 <= j < es@.len() ==> s[j] == (
                (#[trigger] es@[j]).0@,
                es@[j].1.deep(),
            ),
            lookup_entry(s, k@) == lookup_entry(s.take(i as int), k@),
        decreases i,
    {
        proof {
            assert(s.take(i as int).last() == s[i - 1]);
            assert(s.take(i as int).drop_last() =~= s.take(i as int - 1));
        }
        if es[i - 1].0.eq(k) {
            proof {
                assert(es@[i - 1].0@ == k@);
                assert(s[i - 1].0 == k@);
                assert(lookup_entry(s.take(i as int), k@) == Some(s[i - 1].1));
            }
            let v = dup(&es[i - 1].1);
            proof {
                assert(v.deep() == s[i - 1].1);
                assert(lookup_entry(deep_entries(es@), k@) == Some(v.deep()));
            }
            return Some(v);
        }
        i -= 1;
    }
    proof {
        assert(s.take(0) =~= Seq::<(Seq<char>, JsValueV)>::empty());
    }
    None
}

/// `lower_list` maps `lower` elementwise.
pub proof fn lemma_lower_list(h: HostV, vs: Seq<JsValueV>)
    ensures
        lower_list(h, vs).len() == vs.len(),
        forall|i: int| 0 <= i < vs.len() ==> lower_list(h, vs)[i] == lower(
            h,
            #[trigger] vs[i],
        ),
    decreases vs.len(),
{
    if vs.len() > 0 {
        lemma_lower_list(h, vs.drop_first());
        assert forall|i: int| 0 <= i < vs.len() implies lower_list(h, vs)[i] == lower(
            h,
            #[trigger] vs[i],
        ) by {
            if i > 0 {
                assert(lower_list(h, vs)[i] == lower_list(h, vs.drop_first())[i - 1]);
                assert(vs.drop_first()[i - 1] == vs[i]);
            }
        }
    }
}

/// `lower_entries` maps `lower` over the entry values.
pub proof fn lemma_lower_entries(h: HostV, es: Seq<(Seq<char>, JsValueV)>)
    ensures
        lower_entries(h, es).len() == es.len(),
        forall|i: int| 0 <= i < es.len() ==> lower_entries(h, es)[i] == (
            (#[trigger] es[i]).0,
            lower(h, es[i].1),
        ),
    decreases es.len(),
{
    if es.len() > 0 {
        lemma_lower_entries(h, es.drop_first());
        assert forall|i: int| 0 <= i < es.len() implies lower_entries(h, es)[i] == (
            (#[trigger] es[i]).0,
            lower(h, es[i].1),
        ) by {
            if i > 0 {
                assert(lower_entries(h, es)[i] == lower_entries(h, es.drop_first())[i - 1]);
                assert(es.drop_first()[i - 1] == es[i]);
            }
        }
    }
}


/// An unknown value that records the given value as its origin.
fn unknown_of(v: &JsValue, reason: UnknownReason) -> (r: JsValue)
    ensures
        r@ == JsValueV::Unknown(Some(Box::new(v@)), reason),
{
    let d = dup(v);
    let bd = Box::new(d);
    proof {
        assert((*bd)@ == v@);
        assert(crate::value::opt_deep(Some(bd)) == Some(Box::new(v@)));
    }
    JsValue::Unknown(Some(bd), reason)
}

/// One rule application, executably.
fn rule_exec(h: &HostAnswers, x: &JsValue) -> (r: JsValue)
    ensures
        r@ == rule_step(h@, x@),
{
    match x {
        JsValue::Call(f, args) => {
            proof {
                assert(x@ is Call);
                assert(*(x@->Call_0) == (**f).deep());
                assert(x@->Call_1 == deep_list(args@));
            }
            let res = match &**f {
            JsValue::WellKnownFunction(wkf) => match wkf {
                WellKnownFunctionKind::RequireResolve => {
                    proof {
                        lemma_deep_list(args@);
                    }
                    if args.len() == 1 {
                        let p = pattern_of(&args[0]);
                        let ans = h.resolve_pattern(&p);
                        match ans {
                            CjsAnswer::Single(path) => {
                                let c = JsValue::Constant(JsConst::Str(make_abs_path(path)));
                                proof {
                                    assert(c@ == rule_step(h@, x@));
                                }
                                c
                            },
                            CjsAnswer::Several(paths) => {
                                let mut alts: Vec<JsValue> = Vec::new();
                                let mut i: usize = 0;
                                while i < paths.len()
                                    invariant
                                        i <= paths@.len(),
                                        alts@.len() == i,
                                        forall|j: int| 0 <= j < i
                                            ==> (#[trigger] alts@[j]).deep()
                                            == JsValueV::Constant(
                                            ConstV::Str(abs_path(paths@[j]@)),
                                        ),
                                    decreases paths@.len() - i,
                                {
                                    alts.push(
                                        JsValue::Constant(
                                            JsConst::Str(make_abs_path(&paths[i])),
                                        ),
                                    );
                                    i += 1;
                                }
                                proof {
                                    lemma_deep_list(alts@);
                                    let pv = Seq::new(paths@.len(), |j: int| paths@[j]@);
                                    assert forall|j: int| 0 <= j < alts@.len() implies
                                        deep_list(alts@)[j] == answer_paths(pv)[j] by {
                                        assert(deep_list(alts@)[j] == alts@[j].deep());
                                        assert(answer_paths(pv)[j] == JsValueV::Constant(
                                            ConstV::Str(abs_path(paths@[j]@)),
                                        ));
                                    }
                                    assert(deep_list(alts@) =~= answer_paths(pv));
                                }
                                let c = alternatives(alts);
                                proof {
                                    assert(c@ == rule_step(h@, x@));
                                }
                                c
                            },
                            CjsAnswer::Unresolveable => unknown_of(
                                x,
                                UnknownReason::UnresolveableRequest,
                            ),
                        }
                    } else {
                        unknown_of(x, UnknownReason::OnlySingleArgumentSupported)
                    }
                },
                WellKnownFunctionKind::Require => {
                    proof {
                        lemma_deep_list(args@);
                    }
                    if args.len() == 1 {
                        match &args[0] {
                            JsValue::Constant(c) => match c {
                                JsConst::Str(s) => {
                                    let m = JsValue::Module(s.clone());
                                    proof {
                                        assert(x@ is Call);
                                        let fv = *(x@->Call_0);
                                        assert(fv == JsValueV::WellKnownFunction(
                                            WellKnownFunctionKind::Require,
                                        ));
                                        let av = x@->Call_1;
                                        assert(av =~= deep_list(args@));
                                        assert(av.len() == 1);
                                        assert(av[0] == args@[0].deep());
                                        assert(is_str(av[0]));
                                        assert(rule_step(h@, x@) == JsValueV::Module(
                                            str_chars(av[0]),
                                        ));
                                        assert(m@ == rule_step(h@, x@));
                                    }
                                    m
                                },
                                _ => {
                                    let m = dup(x);
                                    proof {
                                        assert(m@ == rule_step(h@, x@));
                                    }
                                    m
                                },
                            },
                            _ => {
                                let m = dup(x);
                                proof {
                                    assert(m@ == rule_step(h@, x@));
                                }
                                m
                            },
                        }
                    } else {
                        let m = dup(x);
                        proof {
                            assert(m@ == rule_step(h@, x@));
                        }
                        m
                    }
                },
                WellKnownFunctionKind::PathJoin => {
                    proof {
                        lemma_deep_list(args@);
                    }
                    if args.len() == 0 {
                        let c = JsValue::Constant(JsConst::Str(String::from_str(".")));
                        proof {
                            assert(c@ == rule_step(h@, x@));
                        }
                        c
                    } else {
                        proof {
                            lemma_with_separators(deep_list(args@));
                        }
                        let mut sep: Vec<JsValue> = Vec::new();
                        let mut i: usize = 0;
                        while i < args.len()
                            invariant
                                args@.len() > 0,
                                i <= args@.len(),
                                deep_list(args@).len() == args@.len(),
                                forall|j: int| 0 <= j < args@.len() ==> deep_list(args@)[j]
                                    == #[trigger] args@[j].deep(),
                                i < args@.len() ==> sep@.len() == 2 * i,
                                i == args@.len() ==> sep@.len() == 2 * i - 1,
                                forall|j: int| 0 <= j < sep@.len() && j % 2 == 0
                                    ==> (#[trigger] sep@[j]).deep() == args@[j / 2].deep(),
                                forall|j: int| 0 <= j < sep@.len() && j % 2 == 1
                                    ==> (#[trigger] sep@[j]).deep() == JsValueV::Constant(
                                    ConstV::Str("/"@),
                                ),
                            decreases args@.len() - i,
                        {
                            sep.push(dup(&args[i]));
                            if i + 1 < args.len() {
                                sep.push(JsValue::Constant(JsConst::Str(String::from_str("/"))));
                            }
                            i += 1;
                        }
                        proof {
                            lemma_deep_list(sep@);
                            lemma_with_separators(deep_list(args@));
                            let ws = with_separators(deep_list(args@));
                            assert forall|j: int| 0 <= j < sep@.len() implies deep_list(
                                sep@,
                            )[j] == ws[j] by {
                                assert(deep_list(sep@)[j] == sep@[j].deep());
                                if j % 2 == 0 {
                                    assert(ws[j] == deep_list(args@)[j / 2]);
                                    assert(deep_list(args@)[j / 2] == args@[j / 2].deep());
                                } else {
                                    assert(ws[j] == JsValueV::Constant(ConstV::Str("/"@)));
                                }
                            }
                            assert(deep_list(sep@) =~= ws);
                        }
                        let c = concat_value(sep);
                        proof {
                            assert(c@ == rule_step(h@, x@));
                        }
                        c
                    }
                },
                _ => {
                    let m = dup(x);
                    proof {
                        assert(m@ == rule_step(h@, x@));
                    }
                    m
                },
            },
            JsValue::Unknown(orig, reason) => match orig {
                Some(o) => {
                    let m = unknown_of(o, *reason);
                    proof {
                        let fv = (**f)@;
                        assert(fv is Unknown);
                        assert(rule_step(h@, x@) == absorb(
                            x@,
                            fv->Unknown_0,
                            fv->Unknown_1,
                        ));
                        assert(fv->Unknown_1 == *reason);
                        assert(**f == JsValue::Unknown(*orig, *reason));
                        assert(*orig == Some(*o));
                        assert(fv->Unknown_0 == crate::value::opt_deep(*orig));
                        assert(fv->Unknown_0 == Some(Box::new((**o)@)));
                        assert(absorb(x@, fv->Unknown_0, fv->Unknown_1)
                            == JsValueV::Unknown(Some(Box::new((**o)@)), *reason));
                        assert(m@ == rule_step(h@, x@));
                    }
                    m
                },
                None => {
                    let m = unknown_of(x, *reason);
                    proof {
                        let fv = (**f)@;
                        assert(fv is Unknown);
                        assert(rule_step(h@, x@) == absorb(
                            x@,
                            fv->Unknown_0,
                            fv->Unknown_1,
                        ));
                        assert(fv->Unknown_0 is None);
                        assert(m@ == rule_step(h@, x@));
                    }
                    m
                },
            },
            _ => {
                let m = dup(x);
                proof {
                    assert(m@ == rule_step(h@, x@));
                }
                m
            },
            };
            proof {
                assert(res@ == rule_step(h@, x@));
            }
            res
        },
        JsValue::Member(o, p) => {
            proof {
                assert(x@ is Member);
                assert(*(x@->Member_0) == (**o).deep());
                assert(*(x@->Member_1) == (**p).deep());
                reveal_strlit("resolve");
            }
            let res = match &**o {
            JsValue::WellKnownFunction(wkf0) => match wkf0 {
                WellKnownFunctionKind::Require => match &**p {
                    JsValue::Constant(c) => match c {
                        JsConst::Str(k) => if str_is(k, "resolve") {
                            JsValue::WellKnownFunction(WellKnownFunctionKind::RequireResolve)
                        } else {
                            dup(x)
                        },
                        _ => dup(x),
                    },
                    _ => dup(x),
                },
                _ => dup(x),
            },
            JsValue::WellKnownObject(wko) => match &**p {
                JsValue::Constant(c) => match c {
                    JsConst::Str(k) => match member_function_of(*wko, k) {
                        Some(wkf) => {
                            let m = JsValue::WellKnownFunction(wkf);
                            proof {
                                assert(m@ == rule_step(h@, x@));
                            }
                            m
                        },
                        None => {
                            let m = dup(x);
                            proof {
                                assert(m@ == rule_step(h@, x@));
                            }
                            m
                        },
                    },
                    _ => dup(x),
                },
                _ => dup(x),
            },
            JsValue::Object(es) => match &**p {
                JsValue::Constant(c) => match c {
                    JsConst::Str(k) => match lookup_entry_exec(es, k) {
                        Some(v) => {
                            proof {
                                assert(v@ == rule_step(h@, x@));
                            }
                            v
                        },
                        None => {
                            let m = dup(x);
                            proof {
                                assert(m@ == rule_step(h@, x@));
                            }
                            m
                        },
                    },
                    _ => dup(x),
                },
                _ => dup(x),
            },
            JsValue::Array(vs) => {
                proof {
                    lemma_deep_list(vs@);
                }
                match &**p {
                    JsValue::Constant(c) => match c {
                        JsConst::Num(i) => if *i >= 0 && ((*i) as u64) < (vs.len() as u64) {
                            dup(&vs[(*i) as usize])
                        } else {
                            dup(x)
                        },
                        _ => dup(x),
                    },
                    _ => dup(x),
                }
            },
            JsValue::Unknown(orig, reason) => match orig {
                Some(ob) => {
                    let m = unknown_of(ob, *reason);
                    proof {
                        let ov = (**o)@;
                        assert(ov is Unknown);
                        assert(**o == JsValue::Unknown(*orig, *reason));
                        assert(*orig == Some(*ob));
                        assert(ov->Unknown_0 == crate::value::opt_deep(*orig));
                        assert(rule_step(h@, x@) == absorb(
                            x@,
                            ov->Unknown_0,
                            ov->Unknown_1,
                        ));
                        assert(m@ == rule_step(h@, x@));
                    }
                    m
                },
                None => {
                    let m = unknown_of(x, *reason);
                    proof {
                        let ov = (**o)@;
                        assert(ov is Unknown);
                        assert(**o == JsValue::Unknown(*orig, *reason));
                        assert(ov->Unknown_0 == crate::value::opt_deep(*orig));
                        assert(rule_step(h@, x@) == absorb(
                            x@,
                            ov->Unknown_0,
                            ov->Unknown_1,
                        ));
                        assert(m@ == rule_step(h@, x@));
                    }
                    m
                },
            },
            _ => dup(x),
            };
            proof {
                assert(res@ == rule_step(h@, x@));
            }
            res
        },
        JsValue::FreeVar(k) => match k {
            FreeVarKind::Dirname => JsValue::Constant(JsConst::Str(make_abs_path(&h.source_dir))),
            FreeVarKind::Filename => JsValue::Constant(
                JsConst::Str(make_abs_path(&h.source_path)),
            ),
            FreeVarKind::Require => JsValue::WellKnownFunction(WellKnownFunctionKind::Require),
            FreeVarKind::Import => JsValue::WellKnownFunction(WellKnownFunctionKind::Import),
            FreeVarKind::NodeProcess => JsValue::WellKnownObject(
                WellKnownObjectKind::NodeProcess,
            ),
            FreeVarKind::Other => unknown_of(x, UnknownReason::UnknownGlobal),
        },
        JsValue::Module(name) => {
            let found = module_object_of(name);
            match found {
                Some(wko) => JsValue::WellKnownObject(wko),
                None => unknown_of(x, UnknownReason::CrossModuleAnalyzing),
            }
        },
        JsValue::Argument(_i) => unknown_of(x, UnknownReason::CrossFunctionAnalyzing),
        _ => dup(x),
    }
}

/// Shallow normalization of one node, executably.
fn nshallow_exec(x: JsValue) -> (r: JsValue)
    ensures
        r@ == nshallow(x@),
{
    match x {
        JsValue::Alternatives(vs) => alternatives(vs),
        JsValue::Concat(vs) => concat_value(vs),
        JsValue::Add(vs) => add_value(vs),
        other => other,
    }
}

/// One lowering step, executably.
fn step_exec(h: &HostAnswers, x: &JsValue) -> (r: JsValue)
    ensures
        r@ == lower_step(h@, x@),
{
    let y = rule_exec(h, x);
    nshallow_exec(y)
}

/// Lower the elements of `vs` from index `i` on.
fn lower_value_list(h: &HostAnswers, vs: &Vec<JsValue>, i: usize) -> (r: Vec<JsValue>)
    requires
        i <= vs@.len(),
    ensures
        r@.len() == vs@.len() - i,
        forall|k: int| 0 <= k < r@.len() ==> (#[trigger] r@[k]).deep() == lower(
            h@,
            vs@[i + k].deep(),
        ),
    decreases vs, vs@.len() - i,
{
    if i == vs.len() {
        Vec::new()
    } else {
        proof {
            assert(decreases_to!(vs => vs@));
            assert(decreases_to!(vs@ => vs@[i as int]));
        }
        let n0 = lower_value(h, &vs[i]);
        let mut rest = lower_value_list(h, vs, i + 1);
        rest.insert(0, n0);
        rest
    }
}

/// Lower the entry values of `es` from index `i` on.
fn lower_entries_vec(h: &HostAnswers, es: &Vec<(String, JsValue)>, i: usize) -> (r: Vec<
    (String, JsValue),
>)
    requires
        i <= es@.len(),
    ensures
        r@.len() == es@.len() - i,
        forall|k: int| 0 <= k < r@.len() ==> (#[trigger] r@[k]).0 == es@[i + k].0,
        forall|k: int| 0 <= k < r@.len() ==> (#[trigger] r@[k]).1.deep() == lower(
            h@,
            es@[i + k].1.deep(),
        ),
    decreases es, es@.len() - i,
{
    if i == es.len() {
        Vec::new()
    } else {
        proof {
            assert(decreases_to!(es => es@));
            assert(decreases_to!(es@ => es@[i as int]));
            assert(decreases_to!(es@[i as int] => es@[i as int].1));
        }
        let key = es[i].0.clone();
        let n0 = lower_value(h, &es[i].1);
        let mut rest = lower_entries_vec(h, es, i + 1);
        rest.insert(0, (key, n0));
        rest
    }
}

/// Elementwise lowering of a vector gives `lower_list` of its view.
proof fn lemma_lowered_views(h: HostV, orig: Seq<JsValue>, out: Seq<JsValue>)
    requires
        out.len() == orig.len(),
        forall|k: int| 0 <= k < out.len() ==> (#[trigger] out[k]).deep() == lower(
            h,
            orig[k].deep(),
        ),
    ensures
        deep_list(out) == lower_list(h, deep_list(orig)),
{
    lemma_deep_list(out);
    lemma_deep_list(orig);
    lemma_lower_list(h, deep_list(orig));
    assert forall|k: int| 0 <= k < out.len() implies deep_list(out)[k] == lower_list(
        h,
        deep_list(orig),
    )[k] by {
        assert(deep_list(out)[k] == out[k].deep());
        assert(deep_list(orig)[k] == orig[k].deep());
    }
    assert(deep_list(out) =~= lower_list(h, deep_list(orig)));
}

/// Elementwise lowering of entries gives `lower_entries` of their view.
proof fn lemma_lowered_entry_views(h: HostV, orig: Seq<(String, JsValue)>, out: Seq<
    (String, JsValue),
>)
    requires
        out.len() == orig.len(),
        forall|k: int| 0 <= k < out.len() ==> (#[trigger] out[k]).0 == orig[k].0,
        forall|k: int| 0 <= k < out.len() ==> (#[trigger] out[k]).1.deep() == lower(
            h,
            orig[k].1.deep(),
        ),
    ensures
        deep_entries(out) == lower_entries(h, deep_entries(orig)),
{
    lemma_deep_entries(out);
    lemma_deep_entries(orig);
    lemma_lower_entries(h, deep_entries(orig));
    assert forall|k: int| 0 <= k < out.len() implies deep_entries(out)[k] == lower_entries(
        h,
        deep_entries(orig),
    )[k] by {
        assert(deep_entries(out)[k] == (out[k].0@, out[k].1.deep()));
        assert(deep_entries(orig)[k] == (orig[k].0@, orig[k].1.deep()));
    }
    assert(deep_entries(out) =~= lower_entries(h, deep_entries(orig)));
}

/// Lower a whole value, children first.
pub fn lower_value(h: &HostAnswers, v: &JsValue) -> (r: JsValue)
    ensures
        r@ == lower(h@, v@),
    decreases v, 2int,
{
    let node: JsValue = match v {
        JsValue::Array(vs) => {
            let n = lower_value_list(h, vs, 0);
            proof {
                lemma_lowered_views(h@, vs@, n@);
            }
            JsValue::Array(n)
        },
        JsValue::Object(es) => {
            let n = lower_entries_vec(h, es, 0);
            proof {
                lemma_lowered_entry_views(h@, es@, n@);
            }
            JsValue::Object(n)
        },
        JsValue::Concat(vs) => {
            let n = lower_value_list(h, vs, 0);
            proof {
                lemma_lowered_views(h@, vs@, n@);
            }
            JsValue::Concat(n)
        },
        JsValue::Add(vs) => {
            let n = lower_value_list(h, vs, 0);
            proof {
                lemma_lowered_views(h@, vs@, n@);
            }
            JsValue::Add(n)
        },
        JsValue::Logical(op, vs) => {
            let n = lower_value_list(h, vs, 0);
            proof {
                lemma_lowered_views(h@, vs@, n@);
            }
            JsValue::Logical(*op, n)
        },
        JsValue::Call(f, args) => {
            let nf = lower_value(h, f);
            let n = lower_value_list(h, args, 0);
            proof {
                lemma_lowered_views(h@, args@, n@);
            }
            JsValue::Call(Box::new(nf), n)
        },
        JsValue::Member(o, p) => JsValue::Member(
            Box::new(lower_value(h, o)),
            Box::new(lower_value(h, p)),
        ),
        JsValue::Alternatives(vs) => {
            let n = lower_value_list(h, vs, 0);
            proof {
                lemma_lowered_views(h@, vs@, n@);
            }
            JsValue::Alternatives(n)
        },
        other => dup(other),
    };
    proof {
        assert(node@ == lower_children(h@, v@));
    }
    let s1 = step_exec(h, &node);
    step_exec(h, &s1)
}

/// A call shape some lowering rule rewrites.
pub open spec fn call_redex(f: JsValueV, args: Seq<JsValueV>) -> bool {
    ||| f == JsValueV::WellKnownFunction(WellKnownFunctionKind::RequireResolve)
    ||| (f == JsValueV::WellKnownFunction(WellKnownFunctionKind::Require) && args.len() == 1
        && is_str(args[0]))
    ||| f == JsValueV::WellKnownFunction(WellKnownFunctionKind::PathJoin)
    ||| f is Unknown
}

/// A member shape some lowering rule rewrites.
pub open spec fn member_redex(o: JsValueV, p: JsValueV) -> bool {
    ||| (o == JsValueV::WellKnownFunction(WellKnownFunctionKind::Require) && is_str(p)
        && str_chars(p) == "resolve"@)
    ||| (o matches JsValueV::WellKnownObject(w) && is_str(p) && member_function(
        w,
        str_chars(p),
    ) is Some)
    ||| (o matches JsValueV::Object(es) && is_str(p) && lookup_entry(es, str_chars(p)) is Some)
    ||| (o matches JsValueV::Array(vs) && p matches JsValueV::Constant(c) && c matches
        ConstV::Num(n) && 0 <= n < vs.len())
    ||| o is Unknown
}

/// A fully lowered value: no rule applies at any node, and every chain is
/// in shallow normal form. The origins of `Unknown` values are not
/// counted: the lowering never rewrites them.
pub open spec fn flowed(x: JsValueV) -> bool
    decreases x,
{
    match x {
        JsValueV::Constant(_) => true,
        JsValueV::Array(vs) => flowed_list(vs),
        JsValueV::Object(es) => flowed_entries(es),
        JsValueV::Concat(vs) => vs.len() != 1 && no_concats(vs) && no_adjacent_strs(vs)
            && flowed_list(vs),
        JsValueV::Add(vs) => vs.len() != 1 && no_adjacent_strs(vs) && flowed_list(vs),
        JsValueV::Logical(_op, vs) => flowed_list(vs),
        JsValueV::Call(f, args) => flowed(*f) && flowed_list(args) && !call_redex(*f, args),
        JsValueV::Member(o, p) => flowed(*o) && flowed(*p) && !member_redex(*o, *p),
        JsValueV::Variable(_) => false,
        JsValueV::Alternatives(vs) => vs.len() != 1 && no_alts(vs) && distinct(vs)
            && flowed_list(vs),
        JsValueV::FreeVar(_) => false,
        JsValueV::Module(_) => false,
        JsValueV::Argument(_) => false,
        JsValueV::WellKnownFunction(_) => true,
        JsValueV::WellKnownObject(_) => true,
        JsValueV::Unknown(_orig, _reason) => true,
    }
}

/// Every element is fully lowered.
pub open spec fn flowed_list(vs: Seq<JsValueV>) -> bool
    decreases vs,
{
    if vs.len() == 0 {
        true
    } else {
        flowed(vs.first()) && flowed_list(vs.drop_first())
    }
}

/// Every entry value is fully lowered.
pub open spec fn flowed_entries(es: Seq<(Seq<char>, JsValueV)>) -> bool
    decreases es,
{
    if es.len() == 0 {
        true
    } else {
        flowed(es.first().1) && flowed_entries(es.drop_first())
    }
}

/// `flowed_list` is the elementwise `flowed`.
pub proof fn lemma_flowed_list_index(vs: Seq<JsValueV>)
    ensures
        flowed_list(vs) <==> forall|i: int| 0 <= i < vs.len() ==> flowed(#[trigger] vs[i]),
    decreases vs.len(),
{
    if vs.len() > 0 {
        lemma_flowed_list_index(vs.drop_first());
        assert(vs.first() == vs[0]);
        if flowed(vs[0]) && (forall|i: int| 0 <= i < vs.drop_first().len() ==> flowed(
            #[trigger] vs.drop_first()[i],
        )) {
            assert forall|i: int| 0 <= i < vs.len() implies flowed(#[trigger] vs[i]) by {
                if i > 0 {
                    assert(vs[i] == vs.drop_first()[i - 1]);
                }
            }
        }
        if forall|i: int| 0 <= i < vs.len() ==> flowed(#[trigger] vs[i]) {
            assert forall|i: int| 0 <= i < vs.drop_first().len() implies flowed(
                #[trigger] vs.drop_first()[i]) by {
                assert(vs.drop_first()[i] == vs[i + 1]);
            }
        }
    }
}

/// `flowed_entries` is the elementwise `flowed` of the entry values.
pub proof fn lemma_flowed_entries_index(es: Seq<(Seq<char>, JsValueV)>)
    ensures
        flowed_entries(es) <==> forall|i: int| 0 <= i < es.len() ==> flowed(
            (#[trigger] es[i]).1,
        ),
    decreases es.len(),
{
    if es.len() > 0 {
        lemma_flowed_entries_index(es.drop_first());
        assert(es.first() == es[0]);
        if flowed(es[0].1) && (forall|i: int| 0 <= i < es.drop_first().len() ==> flowed(
            (#[trigger] es.drop_first()[i]).1,
        )) {
            assert forall|i: int| 0 <= i < es.len() implies flowed((#[trigger] es[i]).1) by {
                if i > 0 {
                    assert(es[i] == es.drop_first()[i - 1]);
                }
            }
        }
        if forall|i: int| 0 <= i < es.len() ==> flowed((#[trigger] es[i]).1) {
            assert forall|i: int| 0 <= i < es.drop_first().len() implies flowed(
                (#[trigger] es.drop_first()[i]).1) by {
                assert(es.drop_first()[i] == es[i + 1]);
            }
        }
    }
}

/// No rule rewrites a fully lowered value, and shallow normalization
/// leaves it in place: one lowering step is the identity on it.
pub proof fn lemma_step_id(h: HostV, x: JsValueV)
    requires
        flowed(x),
    ensures
        rule_step(h, x) == x,
        nshallow(x) == x,
        lower_step(h, x) == x,
{
    match x {
        JsValueV::Alternatives(vs) => {
            lemma_flatten_alts_id(vs);
            lemma_dedup_id(vs);
        },
        JsValueV::Concat(vs) => {
            lemma_flatten_concats_id(vs);
            lemma_merge_strs_id(vs);
        },
        JsValueV::Add(vs) => {
            lemma_merge_strs_id(vs);
        },
        _ => {},
    }
}

/// Lowering is the identity on a fully lowered value.
pub proof fn lemma_lower_id(h: HostV, x: JsValueV)
    requires
        flowed(x),
    ensures
        lower(h, x) == x,
    decreases x, 2int,
{
    lemma_lower_children_id(h, x);
    lemma_step_id(h, x);
}

/// Lowering the children of a fully lowered value changes nothing.
proof fn lemma_lower_children_id(h: HostV, x: JsValueV)
    requires
        flowed(x),
    ensures
        lower_children(h, x) == x,
    decreases x, 1int,
{
    match x {
        JsValueV::Array(vs) => lemma_lower_list_id(h, vs),
        JsValueV::Object(es) => lemma_lower_entries_id(h, es),
        JsValueV::Concat(vs) => lemma_lower_list_id(h, vs),
        JsValueV::Add(vs) => lemma_lower_list_id(h, vs),
        JsValueV::Logical(_op, vs) => lemma_lower_list_id(h, vs),
        JsValueV::Call(f, args) => {
            lemma_lower_id(h, *f);
            lemma_lower_list_id(h, args);
        },
        JsValueV::Member(o, p) => {
            lemma_lower_id(h, *o);
            lemma_lower_id(h, *p);
        },
        JsValueV::Alternatives(vs) => lemma_lower_list_id(h, vs),
        _ => {},
    }
}

/// Lowering is the identity on a list of fully lowered values.
proof fn lemma_lower_list_id(h: HostV, vs: Seq<JsValueV>)
    requires
        flowed_list(vs),
    ensures
        lower_list(h, vs) == vs,
    decreases vs, 0int,
{
    if vs.len() > 0 {
        lemma_lower_id(h, vs.first());
        lemma_lower_list_id(h, vs.drop_first());
        assert(lower_list(h, vs) =~= vs);
    }
}

/// Lowering is the identity on entries with fully lowered values.
proof fn lemma_lower_entries_id(h: HostV, es: Seq<(Seq<char>, JsValueV)>)
    requires
        flowed_entries(es),
    ensures
        lower_entries(h, es) == es,
    decreases es, 0int,
{
    if es.len() > 0 {
        lemma_lower_id(h, es.first().1);
        lemma_lower_entries_id(h, es.drop_first());
        assert(lower_entries(h, es) =~= es);
    }
}

/// Merging adjacent string constants leaves none adjacent; every element
/// of the output is a string constant or an element of the input; no
/// `Concat` appears that was not there; a non-string head stays in place.
proof fn lemma_merge_strs_facts(vs: Seq<JsValueV>)
    ensures
        no_adjacent_strs(merge_strs(vs)),
        forall|j: int| 0 <= j < merge_strs(vs).len() ==> is_str(#[trigger] merge_strs(vs)[j])
            || vs.contains(merge_strs(vs)[j]),
        no_concats(vs) ==> no_concats(merge_strs(vs)),
        (merge_strs(vs).len() == 0) == (vs.len() == 0),
        vs.len() > 0 && !is_str(vs[0]) ==> merge_strs(vs).len() > 0 && merge_strs(vs)[0]
            == vs[0],
    decreases vs.len(),
{
    if vs.len() < 2 {
        assert forall|j: int| 0 <= j < merge_strs(vs).len() implies is_str(
            #[trigger] merge_strs(vs)[j]) || vs.contains(merge_strs(vs)[j]) by {
            assert(merge_strs(vs)[j] == vs[j]);
        }
    } else if is_str(vs[0]) && is_str(vs[1]) {
        let merged = str_merge(vs[0], vs[1]);
        let new = seq![merged] + vs.subrange(2, vs.len() as int);
        lemma_merge_strs_facts(new);
        assert forall|j: int| 0 <= j < merge_strs(vs).len() implies is_str(
            #[trigger] merge_strs(vs)[j]) || vs.contains(merge_strs(vs)[j]) by {
            if !is_str(merge_strs(vs)[j]) {
                assert(new.contains(merge_strs(vs)[j]));
                let k = choose|k: int| 0 <= k < new.len() && new[k] == merge_strs(vs)[j];
                assert(k > 0);
                assert(new[k] == vs[k + 1]);
            }
        }
        if no_concats(vs) {
            assert forall|i: int| 0 <= i < new.len() implies !(#[trigger] new[i] is Concat)
                by {
                if i > 0 {
                    assert(new[i] == vs[i + 1]);
                }
            }
        }
    } else {
        let rest = vs.drop_first();
        lemma_merge_strs_facts(rest);
        let tail = merge_strs(rest);
        let out = seq![vs[0]] + tail;
        assert(merge_strs(vs) == out);
        assert forall|j: int| 0 <= j < out.len() implies is_str(#[trigger] out[j])
            || vs.contains(out[j]) by {
            if j > 0 {
                assert(out[j] == tail[j - 1]);
                if !is_str(out[j]) {
                    assert(rest.contains(out[j]));
                    let k = choose|k: int| 0 <= k < rest.len() && rest[k] == out[j];
                    assert(rest[k] == vs[k + 1]);
                }
            } else {
                assert(vs[0] == out[0]);
            }
        }
        assert forall|j: int| 0 <= j < out.len() - 1 implies !(is_str(#[trigger] out[j])
            && is_str(out[j + 1])) by {
            if j == 0 {
                if is_str(vs[0]) {
                    assert(!is_str(vs[1]));
                    assert(rest[0] == vs[1]);
                    assert(tail[0] == rest[0]);
                    assert(out[1] == tail[0]);
                }
            } else {
                assert(out[j] == tail[j - 1]);
                assert(out[j + 1] == tail[j]);
            }
        }
        if no_concats(vs) {
            assert forall|i: int| 0 <= i < rest.len() implies !(#[trigger] rest[i] is Concat)
                by {
                assert(rest[i] == vs[i + 1]);
            }
            assert forall|j: int| 0 <= j < out.len() implies !(#[trigger] out[j] is Concat)
                by {
                if j > 0 {
                    assert(out[j] == tail[j - 1]);
                    if !is_str(out[j]) {
                        assert(rest.contains(out[j]));
                        let k = choose|k: int| 0 <= k < rest.len() && rest[k] == out[j];
                    }
                    assert(!(tail[j - 1] is Concat));
                }
            }
        }
    }
}

/// Flattening a list of fully lowered elements leaves no nested
/// `Alternatives` and only fully lowered elements.
proof fn lemma_flatten_alts_flowed(vs: Seq<JsValueV>)
    requires
        forall|i: int| 0 <= i < vs.len() ==> flowed(#[trigger] vs[i]),
    ensures
        no_alts(flatten_alts(vs)),
        forall|j: int| 0 <= j < flatten_alts(vs).len() ==> flowed(
            #[trigger] flatten_alts(vs)[j],
        ),
    decreases vs.len(),
{
    if vs.len() > 0 {
        assert(vs.first() == vs[0]);
        assert forall|i: int| 0 <= i < vs.drop_first().len() implies flowed(
            #[trigger] vs.drop_first()[i]) by {
            assert(vs.drop_first()[i] == vs[i + 1]);
        }
        lemma_flatten_alts_flowed(vs.drop_first());
        let head: Seq<JsValueV> = match vs[0] {
            JsValueV::Alternatives(xs) => xs,
            other => seq![other],
        };
        if vs[0] is Alternatives {
            lemma_flowed_list_index(vs[0]->Alternatives_0);
        }
        assert forall|j: int| 0 <= j < flatten_alts(vs).len() implies flowed(
            #[trigger] flatten_alts(vs)[j]) && !(flatten_alts(vs)[j] is Alternatives) by {
            if j < head.len() {
                assert(flatten_alts(vs)[j] == head[j]);
            } else {
                assert(flatten_alts(vs)[j] == flatten_alts(vs.drop_first())[j - head.len()]);
            }
        }
    }
}

/// Flattening a list of fully lowered elements leaves no nested `Concat`
/// and only fully lowered elements.
proof fn lemma_flatten_concats_flowed(vs: Seq<JsValueV>)
    requires
        forall|i: int| 0 <= i < vs.len() ==> flowed(#[trigger] vs[i]),
    ensures
        no_concats(flatten_concats(vs)),
        forall|j: int| 0 <= j < flatten_concats(vs).len() ==> flowed(
            #[trigger] flatten_concats(vs)[j],
        ),
    decreases vs.len(),
{
    if vs.len() > 0 {
        assert(vs.first() == vs[0]);
        assert forall|i: int| 0 <= i < vs.drop_first().len() implies flowed(
            #[trigger] vs.drop_first()[i]) by {
            assert(vs.drop_first()[i] == vs[i + 1]);
        }
        lemma_flatten_concats_flowed(vs.drop_first());
        let head: Seq<JsValueV> = match vs[0] {
            JsValueV::Concat(xs) => xs,
            other => seq![other],
        };
        if vs[0] is Concat {
            lemma_flowed_list_index(vs[0]->Concat_0);
        }
        assert forall|j: int| 0 <= j < flatten_concats(vs).len() implies flowed(
            #[trigger] flatten_concats(vs)[j]) && !(flatten_concats(vs)[j] is Concat) by {
            if j < head.len() {
                assert(flatten_concats(vs)[j] == head[j]);
            } else {
                assert(flatten_concats(vs)[j] == flatten_concats(
                    vs.drop_first(),
                )[j - head.len()]);
            }
        }
    }
}

/// The join of fully lowered values is fully lowered.
proof fn lemma_alt_node_flowed(vs: Seq<JsValueV>)
    requires
        forall|i: int| 0 <= i < vs.len() ==> flowed(#[trigger] vs[i]),
    ensures
        flowed(alt_node(vs)),
{
    lemma_flatten_alts_flowed(vs);
    let flat = flatten_alts(vs);
    lemma_dedup_props(flat);
    let ded = dedup(flat);
    assert forall|j: int| 0 <= j < ded.len() implies flowed(#[trigger] ded[j]) && !(
    ded[j] is Alternatives) by {
        assert(ded.contains(ded[j]));
        assert(flat.contains(ded[j]));
        let k = choose|k: int| 0 <= k < flat.len() && flat[k] == ded[j];
        assert(flowed(flat[k]));
    }
    if ded.len() != 1 {
        lemma_flowed_list_index(ded);
    }
}

/// The concatenation of fully lowered values is fully lowered.
proof fn lemma_concat_node_flowed(vs: Seq<JsValueV>)
    requires
        forall|i: int| 0 <= i < vs.len() ==> flowed(#[trigger] vs[i]),
    ensures
        flowed(concat_node(vs)),
{
    lemma_flatten_concats_flowed(vs);
    let flat = flatten_concats(vs);
    lemma_merge_strs_facts(flat);
    let merged = merge_strs(flat);
    assert forall|j: int| 0 <= j < merged.len() implies flowed(#[trigger] merged[j]) && !(
    merged[j] is Concat) by {
        if !is_str(merged[j]) {
            assert(flat.contains(merged[j]));
            let k = choose|k: int| 0 <= k < flat.len() && flat[k] == merged[j];
            assert(flowed(flat[k]));
        }
    }
    if merged.len() != 1 {
        lemma_flowed_list_index(merged);
    }
}

/// The `+` chain of fully lowered values is fully lowered.
proof fn lemma_add_node_flowed(vs: Seq<JsValueV>)
    requires
        forall|i: int| 0 <= i < vs.len() ==> flowed(#[trigger] vs[i]),
    ensures
        flowed(add_node(vs)),
{
    lemma_merge_strs_facts(vs);
    let merged = merge_strs(vs);
    assert forall|j: int| 0 <= j < merged.len() implies flowed(#[trigger] merged[j]) by {
        if !is_str(merged[j]) {
            assert(vs.contains(merged[j]));
            let k = choose|k: int| 0 <= k < vs.len() && vs[k] == merged[j];
            assert(flowed(vs[k]));
        }
    }
    if merged.len() != 1 {
        lemma_flowed_list_index(merged);
    }
}

/// The value an object lookup finds is fully lowered where the entries
/// are.
proof fn lemma_lookup_entry_flowed(es: Seq<(Seq<char>, JsValueV)>, k: Seq<char>)
    requires
        flowed_entries(es),
    ensures
        lookup_entry(es, k) matches Some(v) ==> flowed(v),
    decreases es,
{
    if es.len() > 0 {
        lemma_flowed_entries_index(es);
        if es.last().0 == k {
            assert(flowed(es[es.len() - 1].1));
        } else {
            assert forall|i: int| 0 <= i < es.drop_last().len() implies flowed(
                (#[trigger] es.drop_last()[i]).1) by {
                assert(es.drop_last()[i] == es[i]);
            }
            lemma_flowed_entries_index(es.drop_last());
            lemma_lookup_entry_flowed(es.drop_last(), k);
        }
    }
}

/// The children of the node are fully lowered (one level only).
pub open spec fn kids_flowed(x: JsValueV) -> bool {
    match x {
        JsValueV::Array(vs) => flowed_list(vs),
        JsValueV::Object(es) => flowed_entries(es),
        JsValueV::Concat(vs) => flowed_list(vs),
        JsValueV::Add(vs) => flowed_list(vs),
        JsValueV::Logical(_op, vs) => flowed_list(vs),
        JsValueV::Call(f, args) => flowed(*f) && flowed_list(args),
        JsValueV::Member(o, p) => flowed(*o) && flowed(*p),
        JsValueV::Alternatives(vs) => flowed_list(vs),
        JsValueV::Variable(_) => false,
        _ => true,
    }
}

/// Lowering a node whose children are fully lowered gives a fully lowered
/// value: every rule chain settles within the two steps of `lower_node`.
proof fn lemma_lower_node_flowed(h: HostV, y: JsValueV)
    requires
        kids_flowed(y),
    ensures
        flowed(lower_node(h, y)),
{
    match y {
        JsValueV::Array(vs) => {
            lemma_step_id(h, y);
        },
        JsValueV::Object(_es) => {
            lemma_step_id(h, y);
        },
        JsValueV::Logical(_op, _vs) => {
            lemma_step_id(h, y);
        },
        JsValueV::Alternatives(vs) => {
            lemma_flowed_list_index(vs);
            lemma_alt_node_flowed(vs);
            let z = alt_node(vs);
            assert(rule_step(h, y) == y);
            assert(lower_step(h, y) == z);
            lemma_step_id(h, z);
        },
        JsValueV::Concat(vs) => {
            lemma_flowed_list_index(vs);
            lemma_concat_node_flowed(vs);
            let z = concat_node(vs);
            assert(rule_step(h, y) == y);
            assert(lower_step(h, y) == z);
            lemma_step_id(h, z);
        },
        JsValueV::Add(vs) => {
            lemma_flowed_list_index(vs);
            lemma_add_node_flowed(vs);
            let z = add_node(vs);
            assert(rule_step(h, y) == y);
            assert(lower_step(h, y) == z);
            lemma_step_id(h, z);
        },
        JsValueV::FreeVar(_k) => {
            let z = rule_step(h, y);
            assert(flowed(z));
            assert(nshallow(z) == z);
            lemma_step_id(h, z);
        },
        JsValueV::Module(_name) => {
            let z = rule_step(h, y);
            assert(flowed(z));
            assert(nshallow(z) == z);
            lemma_step_id(h, z);
        },
        JsValueV::Argument(_i) => {
            let z = rule_step(h, y);
            assert(flowed(z));
            assert(nshallow(z) == z);
            lemma_step_id(h, z);
        },
        JsValueV::Call(f, args) => {
            if *f == JsValueV::WellKnownFunction(WellKnownFunctionKind::RequireResolve) {
                let z = rule_step(h, y);
                if args.len() == 1 {
                    match lookup_resolve(h.resolve, to_pattern(args[0])) {
                        CjsAnswerV::Single(_path) => {
                            assert(flowed(z));
                        },
                        CjsAnswerV::Several(paths) => {
                            let ap = answer_paths(paths);
                            assert forall|j: int| 0 <= j < ap.len() implies flowed(
                                #[trigger] ap[j]) by {
                                assert(ap[j] == JsValueV::Constant(
                                    ConstV::Str(abs_path(paths[j])),
                                ));
                            }
                            lemma_alt_node_flowed(ap);
                            assert(z == alt_node(ap));
                        },
                        CjsAnswerV::Unresolveable => {
                            assert(flowed(z));
                        },
                    }
                } else {
                    assert(flowed(z));
                }
                lemma_step_id(h, z);
            } else if *f == JsValueV::WellKnownFunction(WellKnownFunctionKind::Require)
                && args.len() == 1 && is_str(args[0]) {
                let m = JsValueV::Module(str_chars(args[0]));
                assert(rule_step(h, y) == m);
                assert(nshallow(m) == m);
                let z2 = rule_step(h, m);
                assert(flowed(z2));
                assert(nshallow(z2) == z2);
                assert(lower_node(h, y) == z2);
            } else if *f == JsValueV::WellKnownFunction(WellKnownFunctionKind::PathJoin) {
                if args.len() == 0 {
                    let z = JsValueV::Constant(ConstV::Str("."@));
                    assert(rule_step(h, y) == z);
                    assert(nshallow(z) == z);
                    lemma_step_id(h, z);
                } else {
                    lemma_with_separators(args);
                    lemma_flowed_list_index(args);
                    let ws = with_separators(args);
                    assert forall|j: int| 0 <= j < ws.len() implies flowed(
                        #[trigger] ws[j]) by {
                        if j % 2 == 0 {
                            assert(ws[j] == args[j / 2]);
                        } else {
                            assert(ws[j] == JsValueV::Constant(ConstV::Str("/"@)));
                        }
                    }
                    lemma_concat_node_flowed(ws);
                    let z = concat_node(ws);
                    assert(rule_step(h, y) == z);
                    lemma_step_id(h, z);
                }
            } else if (*f) is Unknown {
                let z = rule_step(h, y);
                assert(flowed(z));
                lemma_step_id(h, z);
            } else {
                assert(rule_step(h, y) == y);
                assert(!call_redex(*f, args));
                assert(flowed(y));
                lemma_step_id(h, y);
            }
        },
        JsValueV::Member(o, p) => {
            if (*o) == JsValueV::WellKnownFunction(WellKnownFunctionKind::Require) && is_str(
                *p,
            ) && str_chars(*p) == "resolve"@ {
                let z = JsValueV::WellKnownFunction(WellKnownFunctionKind::RequireResolve);
                assert(rule_step(h, y) == z);
                lemma_step_id(h, z);
            } else if (*o) matches JsValueV::WellKnownObject(w) {
                if is_str(*p) && member_function((*o)->WellKnownObject_0, str_chars(*p))
                    is Some {
                    let z = rule_step(h, y);
                    assert(flowed(z));
                    lemma_step_id(h, z);
                } else {
                    assert(rule_step(h, y) == y);
                    assert(!member_redex(*o, *p));
                    assert(flowed(y));
                    lemma_step_id(h, y);
                }
            } else if (*o) matches JsValueV::Object(es) {
                if is_str(*p) && lookup_entry((*o)->Object_0, str_chars(*p)) is Some {
                    lemma_lookup_entry_flowed((*o)->Object_0, str_chars(*p));
                    let z = rule_step(h, y);
                    assert(flowed(z));
                    lemma_step_id(h, z);
                } else {
                    assert(rule_step(h, y) == y);
                    assert(!member_redex(*o, *p));
                    assert(flowed(y));
                    lemma_step_id(h, y);
                }
            } else if (*o) matches JsValueV::Array(vs) {
                if (*p) matches JsValueV::Constant(c) && c matches ConstV::Num(n) && 0 <= n
                    < (*o)->Array_0.len() {
                    lemma_flowed_list_index((*o)->Array_0);
                    let z = rule_step(h, y);
                    assert(flowed(z));
                    lemma_step_id(h, z);
                } else {
                    assert(rule_step(h, y) == y);
                    assert(!member_redex(*o, *p));
                    assert(flowed(y));
                    lemma_step_id(h, y);
                }
            } else if (*o) is Unknown {
                let z = rule_step(h, y);
                assert(flowed(z));
                lemma_step_id(h, z);
            } else {
                assert(rule_step(h, y) == y);
                assert(!member_redex(*o, *p));
                assert(flowed(y));
                lemma_step_id(h, y);
            }
        },
        _ => {
            lemma_step_id(h, y);
        },
    }
}

/// Lowering a variable-free value gives a fully lowered value.
pub proof fn lemma_lower_flowed(h: HostV, x: JsValueV)
    requires
        crate::link::no_vars(x),
    ensures
        flowed(lower(h, x)),
    decreases x, 2int,
{
    match x {
        JsValueV::Array(vs) => {
            lemma_lower_flowed_list(h, vs);
        },
        JsValueV::Object(es) => {
            lemma_lower_flowed_entries(h, es);
        },
        JsValueV::Concat(vs) => {
            lemma_lower_flowed_list(h, vs);
        },
        JsValueV::Add(vs) => {
            lemma_lower_flowed_list(h, vs);
        },
        JsValueV::Logical(_op, vs) => {
            lemma_lower_flowed_list(h, vs);
        },
        JsValueV::Call(f, args) => {
            lemma_lower_flowed(h, *f);
            lemma_lower_flowed_list(h, args);
        },
        JsValueV::Member(o, p) => {
            lemma_lower_flowed(h, *o);
            lemma_lower_flowed(h, *p);
        },
        JsValueV::Alternatives(vs) => {
            lemma_lower_flowed_list(h, vs);
        },
        _ => {},
    }
    assert(kids_flowed(lower_children(h, x)));
    lemma_lower_node_flowed(h, lower_children(h, x));
}

/// Lowering a list of variable-free values gives fully lowered elements.
proof fn lemma_lower_flowed_list(h: HostV, vs: Seq<JsValueV>)
    requires
        crate::link::no_vars_list(vs),
    ensures
        lower_list(h, vs).len() == vs.len(),
        flowed_list(lower_list(h, vs)),
    decreases vs, 0int,
{
    lemma_lower_list(h, vs);
    if vs.len() > 0 {
        lemma_lower_flowed(h, vs.first());
        lemma_lower_flowed_list(h, vs.drop_first());
        assert(lower_list(h, vs).first() == lower(h, vs.first()));
        assert(lower_list(h, vs).drop_first() =~= lower_list(h, vs.drop_first()));
    }
}

/// Lowering entries with variable-free values gives fully lowered values.
proof fn lemma_lower_flowed_entries(h: HostV, es: Seq<(Seq<char>, JsValueV)>)
    requires
        crate::link::no_vars_entries(es),
    ensures
        lower_entries(h, es).len() == es.len(),
        flowed_entries(lower_entries(h, es)),
    decreases es, 0int,
{
    lemma_lower_entries(h, es);
    if es.len() > 0 {
        lemma_lower_flowed(h, es.first().1);
        lemma_lower_flowed_entries(h, es.drop_first());
        assert(lower_entries(h, es).first() == (es.first().0, lower(h, es.first().1)));
        assert(lower_entries(h, es).drop_first() =~= lower_entries(h, es.drop_first()));
    }
}

/// A fully lowered value holds no variable reference.
pub proof fn lemma_flowed_no_vars(x: JsValueV)
    requires
        flowed(x),
    ensures
        crate::link::no_vars(x),
    decreases x,
{
    match x {
        JsValueV::Array(vs) => lemma_flowed_no_vars_list(vs),
        JsValueV::Object(es) => lemma_flowed_no_vars_entries(es),
        JsValueV::Concat(vs) => lemma_flowed_no_vars_list(vs),
        JsValueV::Add(vs) => lemma_flowed_no_vars_list(vs),
        JsValueV::Logical(_op, vs) => lemma_flowed_no_vars_list(vs),
        JsValueV::Call(f, args) => {
            lemma_flowed_no_vars(*f);
            lemma_flowed_no_vars_list(args);
        },
        JsValueV::Member(o, p) => {
            lemma_flowed_no_vars(*o);
            lemma_flowed_no_vars(*p);
        },
        JsValueV::Alternatives(vs) => lemma_flowed_no_vars_list(vs),
        _ => {},
    }
}

/// Fully lowered elements hold no variable references.
proof fn lemma_flowed_no_vars_list(vs: Seq<JsValueV>)
    requires
        flowed_list(vs),
    ensures
        crate::link::no_vars_list(vs),
    decreases vs,
{
    if vs.len() > 0 {
        lemma_flowed_no_vars(vs.first());
        lemma_flowed_no_vars_list(vs.drop_first());
    }
}

/// Fully lowered entry values hold no variable references.
proof fn lemma_flowed_no_vars_entries(es: Seq<(Seq<char>, JsValueV)>)
    requires
        flowed_entries(es),
    ensures
        crate::link::no_vars_entries(es),
    decreases es,
{
    if es.len() > 0 {
        lemma_flowed_no_vars(es.first().1);
        lemma_flowed_no_vars_entries(es.drop_first());
    }
}

} // verus!
