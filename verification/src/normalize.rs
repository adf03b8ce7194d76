//! Normalization of abstract values.
//!
//! A value is in normal form when nested `Alternatives` and `Concat` chains
//! are flattened, duplicate alternatives are removed, adjacent string
//! constants in a concatenation or `+` chain are merged, and singleton
//! chains are collapsed to their only part. `normalize` establishes the
//! normal form; applying it twice gives the same result as applying it once.

use vstd::prelude::*;
use crate::value::{JsValue, JsValueV, JsConst, ConstV, FreeVarKind, deep_list, lemma_deep_list, deep_entries, lemma_deep_entries, dup_const, dup_opt, eq_value};

verus! {

broadcast use vstd::std_specs::vec::group_vec_axioms, vstd::seq::group_seq_axioms;

/// Is this view a string constant?
pub open spec fn is_str(v: JsValueV) -> bool {
    v matches JsValueV::Constant(c) && c is Str
}

/// The characters of a string constant view.
pub open spec fn str_chars(v: JsValueV) -> Seq<char>
    recommends
        is_str(v),
{
    v->Constant_0->Str_0
}

/// The merge of two string constants.
pub open spec fn str_merge(a: JsValueV, b: JsValueV) -> JsValueV
    recommends
        is_str(a),
        is_str(b),
{
    JsValueV::Constant(ConstV::Str(str_chars(a) + str_chars(b)))
}

/// Replace each element that is an `Alternatives` with its parts.
pub open spec fn flatten_alts(vs: Seq<JsValueV>) -> Seq<JsValueV>
    decreases vs.len(),
{
    if vs.len() == 0 {
        Seq::empty()
    } else {
        (match vs.first() {
            JsValueV::Alternatives(xs) => xs,
            other => seq![other],
        }) + flatten_alts(vs.drop_first())
    }
}

/// Replace each element that is a `Concat` with its parts.
pub open spec fn flatten_concats(vs: Seq<JsValueV>) -> Seq<JsValueV>
    decreases vs.len(),
{
    if vs.len() == 0 {
        Seq::empty()
    } else {
        (match vs.first() {
            JsValueV::Concat(xs) => xs,
            other => seq![other],
        }) + flatten_concats(vs.drop_first())
    }
}

/// Remove every element equal to an earlier one.
pub open spec fn dedup(vs: Seq<JsValueV>) -> Seq<JsValueV>
    decreases vs.len(),
{
    if vs.len() == 0 {
        Seq::empty()
    } else if vs.drop_last().contains(vs.last()) {
        dedup(vs.drop_last())
    } else {
        dedup(vs.drop_last()).push(vs.last())
    }
}

/// Merge adjacent string constants, left to right.
pub open spec fn merge_strs(vs: Seq<JsValueV>) -> Seq<JsValueV>
    decreases vs.len(),
{
    if vs.len() < 2 {
        vs
    } else if is_str(vs[0]) && is_str(vs[1]) {
        merge_strs(seq![str_merge(vs[0], vs[1])] + vs.subrange(2, vs.len() as int))
    } else {
        seq![vs[0]] + merge_strs(vs.drop_first())
    }
}

/// Rebuild an `Alternatives` node from normalized parts.
pub open spec fn alt_node(vs: Seq<JsValueV>) -> JsValueV {
    let ded = dedup(flatten_alts(vs));
    if ded.len() == 1 {
        ded[0]
    } else {
        JsValueV::Alternatives(ded)
    }
}

/// Rebuild a `Concat` node from normalized parts.
pub open spec fn concat_node(vs: Seq<JsValueV>) -> JsValueV {
    let merged = merge_strs(flatten_concats(vs));
    if merged.len() == 1 {
        merged[0]
    } else {
        JsValueV::Concat(merged)
    }
}

/// Rebuild an `Add` node from normalized parts.
pub open spec fn add_node(vs: Seq<JsValueV>) -> JsValueV {
    let merged = merge_strs(vs);
    if merged.len() == 1 {
        merged[0]
    } else {
        JsValueV::Add(merged)
    }
}

/// Deep normalization: children first, then the node itself.
pub open spec fn norm(v: JsValueV) -> JsValueV
    decreases v,
{
    match v {
        JsValueV::Alternatives(vs) => alt_node(norm_list(vs)),
        JsValueV::Concat(vs) => concat_node(norm_list(vs)),
        JsValueV::Add(vs) => add_node(norm_list(vs)),
        JsValueV::Array(vs) => JsValueV::Array(norm_list(vs)),
        JsValueV::Object(es) => JsValueV::Object(norm_entries(es)),
        JsValueV::Logical(op, vs) => JsValueV::Logical(op, norm_list(vs)),
        JsValueV::Call(f, args) => JsValueV::Call(Box::new(norm(*f)), norm_list(args)),
        JsValueV::Member(o, p) => JsValueV::Member(Box::new(norm(*o)), Box::new(norm(*p))),
        _ => v,
    }
}

/// Deep normalization of each element.
pub open spec fn norm_list(vs: Seq<JsValueV>) -> Seq<JsValueV>
    decreases vs,
{
    if vs.len() == 0 {
        Seq::empty()
    } else {
        seq![norm(vs.first())] + norm_list(vs.drop_first())
    }
}

/// Deep normalization of each entry value.
pub open spec fn norm_entries(es: Seq<(Seq<char>, JsValueV)>) -> Seq<(Seq<char>, JsValueV)>
    decreases es,
{
    if es.len() == 0 {
        Seq::empty()
    } else {
        seq![(es.first().0, norm(es.first().1))] + norm_entries(es.drop_first())
    }
}

/// No element of the sequence is an `Alternatives`.
pub open spec fn no_alts(vs: Seq<JsValueV>) -> bool {
    forall|i: int| 0 <= i < vs.len() ==> !(#[trigger] vs[i] is Alternatives)
}

/// No element of the sequence is a `Concat`.
pub open spec fn no_concats(vs: Seq<JsValueV>) -> bool {
    forall|i: int| 0 <= i < vs.len() ==> !(#[trigger] vs[i] is Concat)
}

/// All elements are pairwise distinct.
pub open spec fn distinct(vs: Seq<JsValueV>) -> bool {
    forall|i: int, j: int| 0 <= i < j < vs.len() ==> vs[i] != vs[j]
}

/// No two adjacent elements are both string constants.
pub open spec fn no_adjacent_strs(vs: Seq<JsValueV>) -> bool {
    forall|i: int| 0 <= i < vs.len() - 1 ==> !(is_str(#[trigger] vs[i]) && is_str(vs[i + 1]))
}

/// The node-local conditions of the normal form.
pub open spec fn normal_node(v: JsValueV) -> bool {
    match v {
        JsValueV::Alternatives(vs) => vs.len() != 1 && no_alts(vs) && distinct(vs),
        JsValueV::Concat(vs) => vs.len() != 1 && no_concats(vs) && no_adjacent_strs(vs),
        JsValueV::Add(vs) => vs.len() != 1 && no_adjacent_strs(vs),
        _ => true,
    }
}

/// The normal form: every node but the origins of `Unknown` satisfies the
/// node conditions.
pub open spec fn normal(v: JsValueV) -> bool
    decreases v,
{
    normal_node(v) && match v {
        JsValueV::Alternatives(vs) => normal_list(vs),
        JsValueV::Concat(vs) => normal_list(vs),
        JsValueV::Add(vs) => normal_list(vs),
        JsValueV::Array(vs) => normal_list(vs),
        JsValueV::Object(es) => normal_entries(es),
        JsValueV::Logical(_op, vs) => normal_list(vs),
        JsValueV::Call(f, args) => normal(*f) && normal_list(args),
        JsValueV::Member(o, p) => normal(*o) && normal(*p),
        _ => true,
    }
}

/// Every element is in normal form.
pub open spec fn normal_list(vs: Seq<JsValueV>) -> bool
    decreases vs,
{
    if vs.len() == 0 {
        true
    } else {
        normal(vs.first()) && normal_list(vs.drop_first())
    }
}

/// Every entry value is in normal form.
pub open spec fn normal_entries(es: Seq<(Seq<char>, JsValueV)>) -> bool
    decreases es,
{
    if es.len() == 0 {
        true
    } else {
        normal(es.first().1) && normal_entries(es.drop_first())
    }
}


/// `norm_list` maps `norm` elementwise.
pub proof fn lemma_norm_list_index(vs: Seq<JsValueV>)
    ensures
        norm_list(vs).len() == vs.len(),
        forall|i: int| 0 <= i < vs.len() ==> norm_list(vs)[i] == norm(#[trigger] vs[i]),
    decreases vs.len(),
{
    if vs.len() > 0 {
        lemma_norm_list_index(vs.drop_first());
        assert forall|i: int| 0 <= i < vs.len() implies norm_list(vs)[i]
            == norm(#[trigger] vs[i]) by {
            if i > 0 {
                assert(norm_list(vs)[i] == norm_list(vs.drop_first())[i - 1]);
                assert(vs.drop_first()[i - 1] == vs[i]);
            }
        }
    }
}

/// `norm_entries` maps `norm` over the entry values.
pub proof fn lemma_norm_entries_index(es: Seq<(Seq<char>, JsValueV)>)
    ensures
        norm_entries(es).len() == es.len(),
        forall|i: int| 0 <= i < es.len() ==> norm_entries(es)[i] == (
            (#[trigger] es[i]).0,
            norm(es[i].1),
        ),
    decreases es.len(),
{
    if es.len() > 0 {
        lemma_norm_entries_index(es.drop_first());
        assert forall|i: int| 0 <= i < es.len() implies norm_entries(es)[i] == (
            (#[trigger] es[i]).0,
            norm(es[i].1),
        ) by {
            if i > 0 {
                assert(norm_entries(es)[i] == norm_entries(es.drop_first())[i - 1]);
                assert(es.drop_first()[i - 1] == es[i]);
            }
        }
    }
}

/// `normal_entries` is the elementwise `normal` of the entry values.
pub proof fn lemma_normal_entries_index(es: Seq<(Seq<char>, JsValueV)>)
    ensures
        normal_entries(es) <==> forall|i: int| 0 <= i < es.len() ==> normal(
            (#[trigger] es[i]).1,
        ),
    decreases es.len(),
{
    if es.len() > 0 {
        lemma_normal_entries_index(es.drop_first());
        assert(es.first() == es[0]);
        if normal(es[0].1) && (forall|i: int| 0 <= i < es.drop_first().len()
            ==> normal((#[trigger] es.drop_first()[i]).1)) {
            assert forall|i: int| 0 <= i < es.len() implies normal((#[trigger] es[i]).1) by {
                if i > 0 {
                    assert(es[i] == es.drop_first()[i - 1]);
                }
            }
        }
        if forall|i: int| 0 <= i < es.len() ==> normal((#[trigger] es[i]).1) {
            assert forall|i: int| 0 <= i < es.drop_first().len() implies normal(
                (#[trigger] es.drop_first()[i]).1) by {
                assert(es.drop_first()[i] == es[i + 1]);
            }
        }
    }
}

/// Flattening a list of normal elements leaves no nested `Alternatives`
/// and only normal elements.
proof fn lemma_flatten_alts_props(vs: Seq<JsValueV>)
    requires
        forall|i: int| 0 <= i < vs.len() ==> normal(#[trigger] vs[i]),
    ensures
        no_alts(flatten_alts(vs)),
        forall|j: int| 0 <= j < flatten_alts(vs).len() ==> normal(
            #[trigger] flatten_alts(vs)[j],
        ),
    decreases vs.len(),
{
    if vs.len() > 0 {
        assert(vs.first() == vs[0]);
        assert forall|i: int| 0 <= i < vs.drop_first().len() implies normal(
            #[trigger] vs.drop_first()[i]) by {
            assert(vs.drop_first()[i] == vs[i + 1]);
        }
        lemma_flatten_alts_props(vs.drop_first());
        let head: Seq<JsValueV> = match vs[0] {
            JsValueV::Alternatives(xs) => xs,
            other => seq![other],
        };
        if vs[0] is Alternatives {
            let xs = vs[0]->Alternatives_0;
            lemma_normal_list_index(xs);
            assert(normal(vs[0]));
        }
        assert forall|j: int| 0 <= j < flatten_alts(vs).len() implies normal(
            #[trigger] flatten_alts(vs)[j]) && !(flatten_alts(vs)[j] is Alternatives) by {
            if j < head.len() {
                assert(flatten_alts(vs)[j] == head[j]);
            } else {
                assert(flatten_alts(vs)[j] == flatten_alts(vs.drop_first())[j - head.len()]);
            }
        }
    }
}

/// Flattening is the identity on a list with no nested `Alternatives`.
pub proof fn lemma_flatten_alts_id(vs: Seq<JsValueV>)
    requires
        no_alts(vs),
    ensures
        flatten_alts(vs) == vs,
    decreases vs.len(),
{
    if vs.len() > 0 {
        assert forall|i: int| 0 <= i < vs.drop_first().len() implies !(
            #[trigger] vs.drop_first()[i] is Alternatives) by {
            assert(vs.drop_first()[i] == vs[i + 1]);
        }
        lemma_flatten_alts_id(vs.drop_first());
        assert(!(vs[0] is Alternatives));
        assert(flatten_alts(vs) =~= vs);
    }
}

/// Flattening a list of normal elements leaves no nested `Concat` and only
/// normal elements.
proof fn lemma_flatten_concats_props(vs: Seq<JsValueV>)
    requires
        forall|i: int| 0 <= i < vs.len() ==> normal(#[trigger] vs[i]),
    ensures
        no_concats(flatten_concats(vs)),
        forall|j: int| 0 <= j < flatten_concats(vs).len() ==> normal(
            #[trigger] flatten_concats(vs)[j],
        ),
    decreases vs.len(),
{
    if vs.len() > 0 {
        assert(vs.first() == vs[0]);
        assert forall|i: int| 0 <= i < vs.drop_first().len() implies normal(
            #[trigger] vs.drop_first()[i]) by {
            assert(vs.drop_first()[i] == vs[i + 1]);
        }
        lemma_flatten_concats_props(vs.drop_first());
        let head: Seq<JsValueV> = match vs[0] {
            JsValueV::Concat(xs) => xs,
            other => seq![other],
        };
        if vs[0] is Concat {
            let xs = vs[0]->Concat_0;
            lemma_normal_list_index(xs);
            assert(normal(vs[0]));
        }
        assert forall|j: int| 0 <= j < flatten_concats(vs).len() implies normal(
            #[trigger] flatten_concats(vs)[j]) && !(flatten_concats(vs)[j] is Concat) by {
            if j < head.len() {
                assert(flatten_concats(vs)[j] == head[j]);
            } else {
                assert(flatten_concats(vs)[j]
                    == flatten_concats(vs.drop_first())[j - head.len()]);
            }
        }
    }
}

/// Flattening is the identity on a list with no nested `Concat`.
pub proof fn lemma_flatten_concats_id(vs: Seq<JsValueV>)
    requires
        no_concats(vs),
    ensures
        flatten_concats(vs) == vs,
    decreases vs.len(),
{
    if vs.len() > 0 {
        assert forall|i: int| 0 <= i < vs.drop_first().len() implies !(
            #[trigger] vs.drop_first()[i] is Concat) by {
            assert(vs.drop_first()[i] == vs[i + 1]);
        }
        lemma_flatten_concats_id(vs.drop_first());
        assert(!(vs[0] is Concat));
        assert(flatten_concats(vs) =~= vs);
    }
}

/// Deduplication gives pairwise distinct elements drawn from the input.
pub proof fn lemma_dedup_props(vs: Seq<JsValueV>)
    ensures
        distinct(dedup(vs)),
        forall|x: JsValueV| #[trigger] dedup(vs).contains(x) ==> vs.contains(x),
    decreases vs.len(),
{
    if vs.len() > 0 {
        lemma_dedup_props(vs.drop_last());
        assert forall|x: JsValueV| #[trigger] dedup(vs.drop_last()).contains(x) implies vs.contains(
            x) by {
            assert(vs.drop_last().contains(x));
            let i = choose|i: int| 0 <= i < vs.drop_last().len() && vs.drop_last()[i] == x;
            assert(vs[i] == x);
        }
        if !vs.drop_last().contains(vs.last()) {
            let d = dedup(vs.drop_last()).push(vs.last());
            assert forall|i: int, j: int| 0 <= i < j < d.len() implies d[i] != d[j] by {
                if j < d.len() - 1 {
                    assert(d[i] == dedup(vs.drop_last())[i]);
                    assert(d[j] == dedup(vs.drop_last())[j]);
                } else {
                    assert(d[j] == vs.last());
                    assert(d[i] == dedup(vs.drop_last())[i]);
                    assert(dedup(vs.drop_last()).contains(d[i]));
                }
            }
            assert(vs.contains(vs.last())) by {
                assert(vs[vs.len() - 1] == vs.last());
            }
        }
        assert forall|x: JsValueV| #[trigger] dedup(vs).contains(x) implies vs.contains(x) by {
            let d0 = dedup(vs.drop_last());
            if vs.drop_last().contains(vs.last()) {
                assert(d0.contains(x));
            } else {
                let i = choose|i: int| 0 <= i < dedup(vs).len() && dedup(vs)[i] == x;
                if i < d0.len() {
                    assert(d0[i] == x);
                    assert(d0.contains(x));
                } else {
                    assert(x == vs.last());
                    assert(vs[vs.len() - 1] == vs.last());
                }
            }
        }
    }
}

/// Deduplication is the identity on a list of pairwise distinct elements.
pub proof fn lemma_dedup_id(vs: Seq<JsValueV>)
    requires
        distinct(vs),
    ensures
        dedup(vs) == vs,
    decreases vs.len(),
{
    if vs.len() > 0 {
        assert(distinct(vs.drop_last()));
        lemma_dedup_id(vs.drop_last());
        if vs.drop_last().contains(vs.last()) {
            let i = choose|i: int| 0 <= i < vs.drop_last().len() && vs.drop_last()[i] == vs.last();
            assert(vs[i] == vs.last());
            assert(vs[vs.len() - 1] == vs.last());
            assert(false);
        }
        assert(dedup(vs) =~= vs);
    }
}

/// `normal_list` is the elementwise `normal`.
pub proof fn lemma_normal_list_index(vs: Seq<JsValueV>)
    ensures
        normal_list(vs) <==> forall|i: int| 0 <= i < vs.len() ==> normal(#[trigger] vs[i]),
    decreases vs.len(),
{
    if vs.len() > 0 {
        lemma_normal_list_index(vs.drop_first());
        assert(vs.first() == vs[0]);
        assert forall|i: int| 0 <= i < vs.drop_first().len() implies #[trigger] vs.drop_first()[i]
            == vs[i + 1] by {}
        if normal(vs[0]) && (forall|i: int| 0 <= i < vs.drop_first().len()
            ==> normal(#[trigger] vs.drop_first()[i])) {
            assert forall|i: int| 0 <= i < vs.len() implies normal(#[trigger] vs[i]) by {
                if i > 0 {
                    assert(vs[i] == vs.drop_first()[i - 1]);
                }
            }
        }
        if forall|i: int| 0 <= i < vs.len() ==> normal(#[trigger] vs[i]) {
            assert forall|i: int| 0 <= i < vs.drop_first().len() implies normal(
                #[trigger] vs.drop_first()[i]) by {
                assert(vs.drop_first()[i] == vs[i + 1]);
            }
        }
    }
}

/// Merging adjacent string constants leaves none adjacent, keeps elements
/// normal, introduces no `Concat`, and keeps a non-string head in place.
proof fn lemma_merge_strs_props(vs: Seq<JsValueV>)
    requires
        forall|i: int| 0 <= i < vs.len() ==> normal(#[trigger] vs[i]),
    ensures
        no_adjacent_strs(merge_strs(vs)),
        forall|j: int| 0 <= j < merge_strs(vs).len() ==> normal(#[trigger] merge_strs(vs)[j]),
        no_concats(vs) ==> no_concats(merge_strs(vs)),
        (merge_strs(vs).len() == 0) == (vs.len() == 0),
        vs.len() > 0 && !is_str(vs[0]) ==> merge_strs(vs).len() > 0 && merge_strs(vs)[0]
            == vs[0],
    decreases vs.len(),
{
    if vs.len() < 2 {
    } else if is_str(vs[0]) && is_str(vs[1]) {
        let merged = str_merge(vs[0], vs[1]);
        let new = seq![merged] + vs.subrange(2, vs.len() as int);
        assert forall|i: int| 0 <= i < new.len() implies normal(#[trigger] new[i]) by {
            if i > 0 {
                assert(new[i] == vs[i + 1]);
            }
        }
        lemma_merge_strs_props(new);
        if no_concats(vs) {
            assert forall|i: int| 0 <= i < new.len() implies !(#[trigger] new[i] is Concat) by {
                if i > 0 {
                    assert(new[i] == vs[i + 1]);
                }
            }
        }
    } else {
        let rest = vs.drop_first();
        assert forall|i: int| 0 <= i < rest.len() implies normal(#[trigger] rest[i]) by {
            assert(rest[i] == vs[i + 1]);
        }
        lemma_merge_strs_props(rest);
        let tail = merge_strs(rest);
        let out = seq![vs[0]] + tail;
        assert(merge_strs(vs) == out);
        if no_concats(vs) {
            assert forall|i: int| 0 <= i < rest.len() implies !(#[trigger] rest[i] is Concat) by {
                assert(rest[i] == vs[i + 1]);
            }
        }
        assert forall|j: int| 0 <= j < out.len() implies normal(#[trigger] out[j]) by {
            if j > 0 {
                assert(out[j] == tail[j - 1]);
            }
        }
        assert forall|j: int| 0 <= j < out.len() - 1 implies !(is_str(#[trigger] out[j])
            && is_str(out[j + 1])) by {
            if j == 0 {
                if is_str(vs[0]) {
                    assert(!is_str(vs[1]));
                    assert(rest[0] == vs[1]);
                    assert(tail[0] == rest[0]);
                    assert(out[1] == tail[0]);
                }
            } else {
                assert(out[j] == tail[j - 1]);
                assert(out[j + 1] == tail[j]);
            }
        }
        if no_concats(vs) {
            assert forall|j: int| 0 <= j < out.len() implies !(#[trigger] out[j] is Concat) by {
                if j > 0 {
                    assert(out[j] == tail[j - 1]);
                }
            }
        }
    }
}

/// Merging is the identity on a list with no adjacent string constants.
pub proof fn lemma_merge_strs_id(vs: Seq<JsValueV>)
    requires
        no_adjacent_strs(vs),
    ensures
        merge_strs(vs) == vs,
    decreases vs.len(),
{
    if vs.len() >= 2 {
        assert(!(is_str(vs[0]) && is_str(vs[1])));
        let rest = vs.drop_first();
        assert forall|i: int| 0 <= i < rest.len() - 1 implies !(is_str(#[trigger] rest[i])
            && is_str(rest[i + 1])) by {
            assert(rest[i] == vs[i + 1]);
            assert(rest[i + 1] == vs[i + 2]);
        }
        lemma_merge_strs_id(rest);
        assert(merge_strs(vs) =~= vs);
    }
}

/// Normalization establishes the normal form.
pub proof fn lemma_norm_normal(v: JsValueV)
    ensures
        normal(norm(v)),
    decreases v,
{
    match v {
        JsValueV::Alternatives(vs) => {
            lemma_norm_list_normal(vs);
            let ns = norm_list(vs);
            lemma_flatten_alts_props(ns);
            let flat = flatten_alts(ns);
            lemma_dedup_props(flat);
            let ded = dedup(flat);
            assert forall|j: int| 0 <= j < ded.len() implies normal(#[trigger] ded[j]) && !(
                ded[j] is Alternatives) by {
                assert(ded.contains(ded[j]));
                assert(flat.contains(ded[j]));
                let i = choose|i: int| 0 <= i < flat.len() && flat[i] == ded[j];
                assert(normal(flat[i]));
            }
            if ded.len() != 1 {
                lemma_normal_list_index(ded);
            }
        },
        JsValueV::Concat(vs) => {
            lemma_norm_list_normal(vs);
            let ns = norm_list(vs);
            lemma_flatten_concats_props(ns);
            let flat = flatten_concats(ns);
            lemma_merge_strs_props(flat);
            let merged = merge_strs(flat);
            if merged.len() != 1 {
                lemma_normal_list_index(merged);
            }
        },
        JsValueV::Add(vs) => {
            lemma_norm_list_normal(vs);
            let ns = norm_list(vs);
            lemma_merge_strs_props(ns);
            let merged = merge_strs(ns);
            if merged.len() != 1 {
                lemma_normal_list_index(merged);
            }
        },
        JsValueV::Array(vs) => {
            lemma_norm_list_normal(vs);
            lemma_normal_list_index(norm_list(vs));
        },
        JsValueV::Object(es) => {
            lemma_norm_entries_normal(es);
            lemma_normal_entries_index(norm_entries(es));
        },
        JsValueV::Logical(_op, vs) => {
            lemma_norm_list_normal(vs);
            lemma_normal_list_index(norm_list(vs));
        },
        JsValueV::Call(f, args) => {
            lemma_norm_normal(*f);
            lemma_norm_list_normal(args);
            lemma_normal_list_index(norm_list(args));
        },
        JsValueV::Member(o, p) => {
            lemma_norm_normal(*o);
            lemma_norm_normal(*p);
        },
        _ => {},
    }
}

/// Normalization of a list gives normal elements.
pub proof fn lemma_norm_list_normal(vs: Seq<JsValueV>)
    ensures
        norm_list(vs).len() == vs.len(),
        forall|i: int| 0 <= i < vs.len() ==> normal(#[trigger] norm_list(vs)[i]),
        normal_list(norm_list(vs)),
    decreases vs,
{
    lemma_norm_list_index(vs);
    if vs.len() > 0 {
        lemma_norm_normal(vs.first());
        lemma_norm_list_normal(vs.drop_first());
        assert forall|i: int| 0 <= i < vs.len() implies normal(#[trigger] norm_list(vs)[i]) by {
            if i > 0 {
                assert(norm_list(vs)[i] == norm_list(vs.drop_first())[i - 1]);
            } else {
                assert(norm_list(vs)[0] == norm(vs.first()));
            }
        }
    }
    lemma_normal_list_index(norm_list(vs));
}

/// Normalization of entries gives normal entry values.
pub proof fn lemma_norm_entries_normal(es: Seq<(Seq<char>, JsValueV)>)
    ensures
        norm_entries(es).len() == es.len(),
        normal_entries(norm_entries(es)),
    decreases es,
{
    lemma_norm_entries_index(es);
    if es.len() > 0 {
        lemma_norm_normal(es.first().1);
        lemma_norm_entries_normal(es.drop_first());
        assert forall|i: int| 0 <= i < es.len() implies normal(
            (#[trigger] norm_entries(es)[i]).1) by {
            if i > 0 {
                assert(norm_entries(es)[i] == norm_entries(es.drop_first())[i - 1]);
                lemma_normal_entries_index(norm_entries(es.drop_first()));
            } else {
                assert(norm_entries(es)[0] == (es.first().0, norm(es.first().1)));
            }
        }
    }
    lemma_normal_entries_index(norm_entries(es));
}

/// Normalization is the identity on values already in normal form.
pub proof fn lemma_normal_norm_id(v: JsValueV)
    requires
        normal(v),
    ensures
        norm(v) == v,
    decreases v,
{
    match v {
        JsValueV::Alternatives(vs) => {
            lemma_normal_norm_list_id(vs);
            lemma_flatten_alts_id(vs);
            lemma_dedup_id(vs);
        },
        JsValueV::Concat(vs) => {
            lemma_normal_norm_list_id(vs);
            lemma_flatten_concats_id(vs);
            lemma_merge_strs_id(vs);
        },
        JsValueV::Add(vs) => {
            lemma_normal_norm_list_id(vs);
            lemma_merge_strs_id(vs);
        },
        JsValueV::Array(vs) => {
            lemma_normal_norm_list_id(vs);
        },
        JsValueV::Object(es) => {
            lemma_normal_norm_entries_id(es);
        },
        JsValueV::Logical(_op, vs) => {
            lemma_normal_norm_list_id(vs);
        },
        JsValueV::Call(f, args) => {
            lemma_normal_norm_id(*f);
            lemma_normal_norm_list_id(args);
        },
        JsValueV::Member(o, p) => {
            lemma_normal_norm_id(*o);
            lemma_normal_norm_id(*p);
        },
        _ => {},
    }
}

/// Elementwise identity of normalization on a normal list.
pub proof fn lemma_normal_norm_list_id(vs: Seq<JsValueV>)
    requires
        normal_list(vs),
    ensures
        norm_list(vs) == vs,
    decreases vs,
{
    if vs.len() > 0 {
        lemma_normal_norm_id(vs.first());
        lemma_normal_norm_list_id(vs.drop_first());
        assert(norm_list(vs) =~= vs);
    }
}

/// Elementwise identity of normalization on normal entries.
pub proof fn lemma_normal_norm_entries_id(es: Seq<(Seq<char>, JsValueV)>)
    requires
        normal_entries(es),
    ensures
        norm_entries(es) == es,
    decreases es,
{
    if es.len() > 0 {
        lemma_normal_norm_id(es.first().1);
        lemma_normal_norm_entries_id(es.drop_first());
        assert(norm_entries(es) =~= es);
    }
}

/// Normalization is idempotent: a second application changes nothing.
pub proof fn lemma_normalize_idempotent(v: JsValueV)
    ensures
        norm(norm(v)) == norm(v),
{
    lemma_norm_normal(v);
    lemma_normal_norm_id(norm(v));
}

/// `deep_list` distributes over concatenation.
pub proof fn lemma_deep_list_concat_pub(a: Seq<JsValue>, b: Seq<JsValue>)
    ensures
        deep_list(a + b) == deep_list(a) + deep_list(b),
{
    lemma_deep_list_concat(a, b);
}

/// `deep_list` distributes over concatenation.
pub proof fn lemma_deep_list_concat(a: Seq<JsValue>, b: Seq<JsValue>)
    ensures
        deep_list(a + b) == deep_list(a) + deep_list(b),
{
    lemma_deep_list(a);
    lemma_deep_list(b);
    lemma_deep_list(a + b);
    assert forall|i: int| 0 <= i < (a + b).len() implies deep_list(a + b)[i] == (deep_list(a)
        + deep_list(b))[i] by {
        assert(deep_list(a + b)[i] == (a + b)[i].deep());
        if i < a.len() {
            assert((a + b)[i] == a[i]);
            assert(deep_list(a)[i] == a[i].deep());
            assert((deep_list(a) + deep_list(b))[i] == deep_list(a)[i]);
        } else {
            assert((a + b)[i] == b[i - a.len()]);
            assert(deep_list(b)[i - a.len()] == b[i - a.len()].deep());
            assert((deep_list(a) + deep_list(b))[i] == deep_list(b)[i - a.len()]);
        }
    }
    assert(deep_list(a + b) =~= deep_list(a) + deep_list(b));
}

/// Does the list hold an element with this view?
pub fn contains_value(vs: &Vec<JsValue>, x: &JsValue) -> (r: bool)
    ensures
        r == deep_list(vs@).contains(x@),
{
    proof {
        lemma_deep_list(vs@);
    }
    let mut i: usize = 0;
    while i < vs.len()
        invariant
            i <= vs@.len(),
            forall|j: int| 0 <= j < i ==> #[trigger] vs@[j].deep() != x@,
            deep_list(vs@).len() == vs@.len(),
            forall|j: int| 0 <= j < vs@.len() ==> deep_list(vs@)[j] == #[trigger] vs@[j].deep(),
        decreases vs@.len() - i,
    {
        if eq_value(&vs[i], x) {
            proof {
                assert(deep_list(vs@)[i as int] == x@);
            }
            return true;
        }
        i += 1;
    }
    proof {
        if deep_list(vs@).contains(x@) {
            let j = choose|j: int| 0 <= j < deep_list(vs@).len() && deep_list(vs@)[j] == x@;
            assert(vs@[j].deep() == x@);
        }
    }
    false
}

/// Executable flattening of nested `Alternatives`.
fn flatten_alts_vec(vs: Vec<JsValue>) -> (r: Vec<JsValue>)
    ensures
        deep_list(r@) == flatten_alts(deep_list(vs@)),
    decreases vs@.len(),
{
    let ghost s = deep_list(vs@);
    proof {
        lemma_deep_list(vs@);
    }
    let mut vs = vs;
    if vs.len() == 0 {
        proof {
            assert(flatten_alts(s) =~= deep_list(vs@));
        }
        return vs;
    }
    let ghost vs0 = vs@;
    let first = vs.remove(0);
    proof {
        lemma_deep_list(vs@);
        assert(deep_list(vs@) =~= s.drop_first());
        assert(first.deep() == s.first());
    }
    let mut head: Vec<JsValue> = match first {
        JsValue::Alternatives(xs) => xs,
        other => {
            let mut h: Vec<JsValue> = Vec::new();
            h.push(other);
            h
        },
    };
    proof {
        lemma_deep_list(head@);
        assert(deep_list(head@) =~= (match s.first() {
            JsValueV::Alternatives(inner) => inner,
            o => seq![o],
        }));
    }
    let ghost head0 = head@;
    let mut tail = flatten_alts_vec(vs);
    let ghost tail0 = tail@;
    head.append(&mut tail);
    proof {
        lemma_deep_list_concat(head0, tail0);
        assert(head@ == head0 + tail0);
    }
    head
}

/// Executable removal of duplicate elements, keeping first occurrences.
fn dedup_vec(vs: Vec<JsValue>) -> (r: Vec<JsValue>)
    ensures
        deep_list(r@) == dedup(deep_list(vs@)),
    decreases vs@.len(),
{
    let ghost s = deep_list(vs@);
    proof {
        lemma_deep_list(vs@);
    }
    let mut vs = vs;
    if vs.len() == 0 {
        proof {
            assert(dedup(s) =~= deep_list(vs@));
        }
        return vs;
    }
    let ghost v0 = vs@;
    let last = match vs.pop() {
        Some(x) => x,
        None => {
            proof {
                assert(false);
            }
            JsValue::FreeVar(FreeVarKind::Other)
        },
    };
    proof {
        lemma_deep_list(vs@);
        assert forall|k: int| 0 <= k < vs@.len() implies deep_list(vs@)[k]
            == s.drop_last()[k] by {
            assert(deep_list(vs@)[k] == vs@[k].deep());
            assert(vs@[k] == v0[k]);
            assert(s[k] == v0[k].deep());
        }
        assert(deep_list(vs@) =~= s.drop_last());
        assert(last == v0.last());
        assert(last.deep() == s.last());
    }
    let c = contains_value(&vs, &last);
    let mut d = dedup_vec(vs);
    if !c {
        let ghost d0 = d@;
        let ghost lastg = last;
        d.push(last);
        proof {
            assert(d@ == d0.push(lastg));
            assert(d0.push(lastg) =~= d0 + seq![lastg]);
            lemma_deep_list_concat(d0, seq![lastg]);
            lemma_deep_list(seq![lastg]);
            assert(deep_list(seq![lastg]) =~= seq![lastg.deep()]);
            assert(deep_list(d@) =~= dedup(s));
        }
    }
    d
}

/// Is this value a string constant?
fn is_str_const(v: &JsValue) -> (r: bool)
    ensures
        r == is_str(v@),
{
    match v {
        JsValue::Constant(c) => match c {
            JsConst::Str(_) => true,
            _ => false,
        },
        _ => false,
    }
}

/// Executable merging of adjacent string constants.
fn merge_strs_vec(vs: Vec<JsValue>) -> (r: Vec<JsValue>)
    ensures
        deep_list(r@) == merge_strs(deep_list(vs@)),
    decreases vs@.len(),
{
    let ghost s = deep_list(vs@);
    proof {
        lemma_deep_list(vs@);
    }
    if vs.len() < 2 {
        return vs;
    }
    if is_str_const(&vs[0]) && is_str_const(&vs[1]) {
        let mut vs = vs;
        let ghost v0 = vs@;
        let first = vs.remove(0);
        proof {
            assert(vs@ =~= v0.drop_first());
        }
        let ghost v1 = vs@;
        let second = vs.remove(0);
        proof {
            assert(vs@ =~= v1.drop_first());
            lemma_deep_list(vs@);
            assert forall|k: int| 0 <= k < vs@.len() implies vs@[k] == v0[k + 2] by {}
            assert forall|k: int| 0 <= k < vs@.len() implies deep_list(vs@)[k] == s.subrange(
                2,
                s.len() as int,
            )[k] by {
                assert(deep_list(vs@)[k] == vs@[k].deep());
                assert(s[k + 2] == v0[k + 2].deep());
            }
            assert(deep_list(vs@) =~= s.subrange(2, s.len() as int));
        }
        let a = match first {
            JsValue::Constant(c) => match c {
                JsConst::Str(x) => x,
                _ => {
                    proof {
                        assert(false);
                    }
                    String::new()
                },
            },
            _ => {
                proof {
                    assert(false);
                }
                String::new()
            },
        };
        let b = match second {
            JsValue::Constant(c) => match c {
                JsConst::Str(x) => x,
                _ => {
                    proof {
                        assert(false);
                    }
                    String::new()
                },
            },
            _ => {
                proof {
                    assert(false);
                }
                String::new()
            },
        };
        proof {
            assert(first == v0[0]);
            assert(second == v1[0]);
            assert(v1[0] == v0[1]);
            assert(s[0] == v0[0].deep());
            assert(s[1] == v0[1].deep());
        }
        let mut m = a;
        m.append(b.as_str());
        proof {
            assert(m@ == str_chars(s[0]) + str_chars(s[1]));
        }
        let mut nv: Vec<JsValue> = Vec::new();
        nv.push(JsValue::Constant(JsConst::Str(m)));
        let ghost one = nv@;
        let ghost rest0 = vs@;
        nv.append(&mut vs);
        proof {
            lemma_deep_list_concat(one, rest0);
            assert(nv@ == one + rest0);
            lemma_deep_list(one);
            assert(one[0].deep() == str_merge(s[0], s[1]));
            assert(deep_list(one) =~= seq![str_merge(s[0], s[1])]);
            assert(deep_list(nv@) =~= seq![str_merge(s[0], s[1])] + s.subrange(2, s.len() as int));
        }
        merge_strs_vec(nv)
    } else {
        let mut vs = vs;
        let ghost v0 = vs@;
        let first = vs.remove(0);
        proof {
            assert(vs@ =~= v0.drop_first());
            lemma_deep_list(vs@);
            assert forall|k: int| 0 <= k < vs@.len() implies deep_list(vs@)[k]
                == s.drop_first()[k] by {
                assert(deep_list(vs@)[k] == vs@[k].deep());
                assert(s[k + 1] == v0[k + 1].deep());
            }
            assert(deep_list(vs@) =~= s.drop_first());
        }
        let mut tail = merge_strs_vec(vs);
        let ghost t0 = tail@;
        let ghost firstg = first;
        tail.insert(0, first);
        proof {
            assert(tail@ == t0.insert(0, firstg));
            assert(tail@ =~= seq![firstg] + t0);
            lemma_deep_list_concat(seq![firstg], t0);
            lemma_deep_list(seq![firstg]);
            assert(deep_list(seq![firstg]) =~= seq![firstg.deep()]);
            assert(firstg.deep() == s[0]);
            assert(deep_list(tail@) == merge_strs(s));
        }
        tail
    }
}

/// Smart constructor: the join of the given values, flattened and
/// deduplicated, collapsing a singleton to its only element.
pub fn alternatives(vs: Vec<JsValue>) -> (r: JsValue)
    ensures
        r@ == alt_node(deep_list(vs@)),
{
    let flat = flatten_alts_vec(vs);
    let mut ded = dedup_vec(flat);
    proof {
        lemma_deep_list(ded@);
    }
    if ded.len() == 1 {
        match ded.pop() {
            Some(x) => x,
            None => {
                proof {
                    assert(false);
                }
                JsValue::FreeVar(FreeVarKind::Other)
            },
        }
    } else {
        JsValue::Alternatives(ded)
    }
}

/// Smart constructor: a concatenation with nested concatenations flattened
/// and adjacent string constants merged.
pub fn concat_value(vs: Vec<JsValue>) -> (r: JsValue)
    ensures
        r@ == concat_node(deep_list(vs@)),
{
    let flat = flatten_concats_vec(vs);
    let mut merged = merge_strs_vec(flat);
    proof {
        lemma_deep_list(merged@);
    }
    if merged.len() == 1 {
        match merged.pop() {
            Some(x) => x,
            None => {
                proof {
                    assert(false);
                }
                JsValue::FreeVar(FreeVarKind::Other)
            },
        }
    } else {
        JsValue::Concat(merged)
    }
}

/// Smart constructor: a `+` chain with adjacent string constants merged.
pub fn add_value(vs: Vec<JsValue>) -> (r: JsValue)
    ensures
        r@ == add_node(deep_list(vs@)),
{
    let mut merged = merge_strs_vec(vs);
    proof {
        lemma_deep_list(merged@);
    }
    if merged.len() == 1 {
        match merged.pop() {
            Some(x) => x,
            None => {
                proof {
                    assert(false);
                }
                JsValue::FreeVar(FreeVarKind::Other)
            },
        }
    } else {
        JsValue::Add(merged)
    }
}

/// Executable flattening of nested `Concat` values.
fn flatten_concats_vec(vs: Vec<JsValue>) -> (r: Vec<JsValue>)
    ensures
        deep_list(r@) == flatten_concats(deep_list(vs@)),
    decreases vs@.len(),
{
    let ghost s = deep_list(vs@);
    proof {
        lemma_deep_list(vs@);
    }
    let mut vs = vs;
    if vs.len() == 0 {
        proof {
            assert(flatten_concats(s) =~= deep_list(vs@));
        }
        return vs;
    }
    let ghost vs0 = vs@;
    let first = vs.remove(0);
    proof {
        lemma_deep_list(vs@);
        assert(deep_list(vs@) =~= s.drop_first());
        assert(first.deep() == s.first());
    }
    let mut head: Vec<JsValue> = match first {
        JsValue::Concat(xs) => xs,
        other => {
            let mut h: Vec<JsValue> = Vec::new();
            h.push(other);
            h
        },
    };
    proof {
        lemma_deep_list(head@);
        assert(deep_list(head@) =~= (match s.first() {
            JsValueV::Concat(inner) => inner,
            o => seq![o],
        }));
    }
    let ghost head0 = head@;
    let mut tail = flatten_concats_vec(vs);
    let ghost tail0 = tail@;
    head.append(&mut tail);
    proof {
        lemma_deep_list_concat(head0, tail0);
        assert(head@ == head0 + tail0);
    }
    head
}

/// Connects elementwise normalization of a vector to `norm_list` of its view.
proof fn lemma_normalized_views(orig: Seq<JsValue>, out: Seq<JsValue>)
    requires
        out.len() == orig.len(),
        forall|k: int| 0 <= k < out.len() ==> (#[trigger] out[k]).deep() == norm(orig[k].deep()),
    ensures
        deep_list(out) == norm_list(deep_list(orig)),
{
    lemma_deep_list(out);
    lemma_deep_list(orig);
    lemma_norm_list_index(deep_list(orig));
    assert forall|k: int| 0 <= k < out.len() implies deep_list(out)[k] == norm_list(
        deep_list(orig),
    )[k] by {
        assert(deep_list(out)[k] == out[k].deep());
        assert(deep_list(orig)[k] == orig[k].deep());
    }
    assert(deep_list(out) =~= norm_list(deep_list(orig)));
}

/// Connects elementwise normalization of entries to `norm_entries`.
proof fn lemma_normalized_entry_views(
    orig: Seq<(String, JsValue)>,
    out: Seq<(String, JsValue)>,
)
    requires
        out.len() == orig.len(),
        forall|k: int| 0 <= k < out.len() ==> (#[trigger] out[k]).0 == orig[k].0,
        forall|k: int| 0 <= k < out.len() ==> (#[trigger] out[k]).1.deep() == norm(
            orig[k].1.deep(),
        ),
    ensures
        deep_entries(out) == norm_entries(deep_entries(orig)),
{
    lemma_deep_entries(out);
    lemma_deep_entries(orig);
    lemma_norm_entries_index(deep_entries(orig));
    assert forall|k: int| 0 <= k < out.len() implies deep_entries(out)[k] == norm_entries(
        deep_entries(orig),
    )[k] by {
        assert(deep_entries(out)[k] == (out[k].0@, out[k].1.deep()));
        assert(deep_entries(orig)[k] == (orig[k].0@, orig[k].1.deep()));
    }
    assert(deep_entries(out) =~= norm_entries(deep_entries(orig)));
}

/// Normalize every element of `vs` from index `i` on.
fn normalize_list(vs: &Vec<JsValue>, i: usize) -> (r: Vec<JsValue>)
    requires
        i <= vs@.len(),
    ensures
        r@.len() == vs@.len() - i,
        forall|k: int| 0 <= k < r@.len() ==> (#[trigger] r@[k]).deep() == norm(
            vs@[i + k].deep(),
        ),
    decreases vs, vs@.len() - i,
{
    if i == vs.len() {
        Vec::new()
    } else {
        proof {
            assert(decreases_to!(vs => vs@));
            assert(decreases_to!(vs@ => vs@[i as int]));
        }
        let n0 = normalize(&vs[i]);
        let mut rest = normalize_list(vs, i + 1);
        rest.insert(0, n0);
        rest
    }
}

/// Normalize the value of every entry of `es` from index `i` on.
fn normalize_entries_vec(es: &Vec<(String, JsValue)>, i: usize) -> (r: Vec<(String, JsValue)>)
    requires
        i <= es@.len(),
    ensures
        r@.len() == es@.len() - i,
        forall|k: int| 0 <= k < r@.len() ==> (#[trigger] r@[k]).0 == es@[i + k].0,
        forall|k: int| 0 <= k < r@.len() ==> (#[trigger] r@[k]).1.deep() == norm(
            es@[i + k].1.deep(),
        ),
    decreases es, es@.len() - i,
{
    if i == es.len() {
        Vec::new()
    } else {
        proof {
            assert(decreases_to!(es => es@));
            assert(decreases_to!(es@ => es@[i as int]));
            assert(decreases_to!(es@[i as int] => es@[i as int].1));
        }
        let key = es[i].0.clone();
        let n0 = normalize(&es[i].1);
        let mut rest = normalize_entries_vec(es, i + 1);
        rest.insert(0, (key, n0));
        rest
    }
}

/// Apply the normal form to a value, bottom up.
pub fn normalize(v: &JsValue) -> (r: JsValue)
    ensures
        r@ == norm(v@),
    decreases v, 0int,
{
    match v {
        JsValue::Alternatives(vs) => {
            let n = normalize_list(vs, 0);
            proof {
                lemma_normalized_views(vs@, n@);
            }
            alternatives(n)
        },
        JsValue::Concat(vs) => {
            let n = normalize_list(vs, 0);
            proof {
                lemma_normalized_views(vs@, n@);
            }
            concat_value(n)
        },
        JsValue::Add(vs) => {
            let n = normalize_list(vs, 0);
            proof {
                lemma_normalized_views(vs@, n@);
            }
            add_value(n)
        },
        JsValue::Array(vs) => {
            let n = normalize_list(vs, 0);
            proof {
                lemma_normalized_views(vs@, n@);
            }
            JsValue::Array(n)
        },
        JsValue::Object(es) => {
            let n = normalize_entries_vec(es, 0);
            proof {
                lemma_normalized_entry_views(es@, n@);
            }
            JsValue::Object(n)
        },
        JsValue::Logical(op, vs) => {
            let n = normalize_list(vs, 0);
            proof {
                lemma_normalized_views(vs@, n@);
            }
            JsValue::Logical(*op, n)
        },
        JsValue::Call(f, args) => {
            let nf = normalize(f);
            let n = normalize_list(args, 0);
            proof {
                lemma_normalized_views(args@, n@);
            }
            JsValue::Call(Box::new(nf), n)
        },
        JsValue::Member(o, p) => JsValue::Member(
            Box::new(normalize(o)),
            Box::new(normalize(p)),
        ),
        JsValue::Constant(c) => JsValue::Constant(dup_const(c)),
        JsValue::Variable(id) => JsValue::Variable(*id),
        JsValue::FreeVar(k) => JsValue::FreeVar(*k),
        JsValue::Module(name) => JsValue::Module(name.clone()),
        JsValue::Argument(i) => JsValue::Argument(*i),
        JsValue::WellKnownFunction(k) => JsValue::WellKnownFunction(*k),
        JsValue::WellKnownObject(k) => JsValue::WellKnownObject(*k),
        JsValue::Unknown(orig, reason) => JsValue::Unknown(dup_opt(orig), *reason),
    }
}

} // verus!
