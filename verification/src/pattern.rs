//! Patterns: partially known strings used as module requests.

use vstd::prelude::*;
use crate::value::{JsValue, JsValueV, JsConst, ConstV, deep_list, lemma_deep_list};

verus! {

broadcast use vstd::std_specs::vec::group_vec_axioms, vstd::seq::group_seq_axioms;

/// A partially known string.
#[derive(Debug)]
pub enum Pattern {
    /// A fully known part.
    Constant(String),
    /// A part about which nothing is known.
    Dynamic,
    /// The parts in order.
    Concatenation(Vec<Pattern>),
    /// Any one of the parts.
    Alternatives(Vec<Pattern>),
}

/// Mathematical view of a pattern.
pub enum PatternV {
    Constant(Seq<char>),
    Dynamic,
    Concatenation(Seq<PatternV>),
    Alternatives(Seq<PatternV>),
}

impl Pattern {
    /// The mathematical view of this pattern.
    pub open spec fn deep(self) -> PatternV
        decreases self,
    {
        match self {
            Pattern::Constant(s) => PatternV::Constant(s@),
            Pattern::Dynamic => PatternV::Dynamic,
            Pattern::Concatenation(ps) => PatternV::Concatenation(pat_list(ps@)),
            Pattern::Alternatives(ps) => PatternV::Alternatives(pat_list(ps@)),
        }
    }
}

impl View for Pattern {
    type V = PatternV;

    open spec fn view(&self) -> PatternV {
        self.deep()
    }
}

/// The views of a sequence of patterns, elementwise.
pub open spec fn pat_list(ps: Seq<Pattern>) -> Seq<PatternV>
    decreases ps,
{
    if ps.len() == 0 {
        Seq::empty()
    } else {
        seq![ps.first().deep()] + pat_list(ps.drop_first())
    }
}

/// `pat_list` maps the view elementwise.
pub proof fn lemma_pat_list(ps: Seq<Pattern>)
    ensures
        pat_list(ps).len() == ps.len(),
        forall|i: int| 0 <= i < ps.len() ==> pat_list(ps)[i] == #[trigger] ps[i].deep(),
    decreases ps.len(),
{
    if ps.len() > 0 {
        lemma_pat_list(ps.drop_first());
        assert forall|i: int| 0 <= i < ps.len() implies pat_list(ps)[i]
            == #[trigger] ps[i].deep() by {
            if i > 0 {
                assert(pat_list(ps)[i] == pat_list(ps.drop_first())[i - 1]);
                assert(ps.drop_first()[i - 1] == ps[i]);
            }
        }
    }
}

/// The pattern that stands for an abstract value: string constants are kept,
/// concatenations and `+` chains become concatenations, joins stay joins,
/// and everything else is dynamic.
pub open spec fn to_pattern(v: JsValueV) -> PatternV
    decreases v,
{
    match v {
        JsValueV::Constant(c) => match c {
            ConstV::Str(s) => PatternV::Constant(s),
            _ => PatternV::Dynamic,
        },
        JsValueV::Alternatives(vs) => PatternV::Alternatives(to_pattern_list(vs)),
        JsValueV::Concat(vs) => PatternV::Concatenation(to_pattern_list(vs)),
        JsValueV::Add(vs) => PatternV::Concatenation(to_pattern_list(vs)),
        _ => PatternV::Dynamic,
    }
}

/// `to_pattern` over each element.
pub open spec fn to_pattern_list(vs: Seq<JsValueV>) -> Seq<PatternV>
    decreases vs,
{
    if vs.len() == 0 {
        Seq::empty()
    } else {
        seq![to_pattern(vs.first())] + to_pattern_list(vs.drop_first())
    }
}

/// `to_pattern_list` maps `to_pattern` elementwise.
pub proof fn lemma_to_pattern_list(vs: Seq<JsValueV>)
    ensures
        to_pattern_list(vs).len() == vs.len(),
        forall|i: int| 0 <= i < vs.len() ==> to_pattern_list(vs)[i] == to_pattern(
            #[trigger] vs[i],
        ),
    decreases vs.len(),
{
    if vs.len() > 0 {
        lemma_to_pattern_list(vs.drop_first());
        assert forall|i: int| 0 <= i < vs.len() implies to_pattern_list(vs)[i] == to_pattern(
            #[trigger] vs[i]) by {
            if i > 0 {
                assert(to_pattern_list(vs)[i] == to_pattern_list(vs.drop_first())[i - 1]);
                assert(vs.drop_first()[i - 1] == vs[i]);
            }
        }
    }
}

/// Is the pattern made of constant parts alone? A pattern with any
/// dynamic part is diagnosed as dynamic at its call site.
pub open spec fn has_constant_parts(p: PatternV) -> bool
    decreases p,
{
    match p {
        PatternV::Constant(_) => true,
        PatternV::Dynamic => false,
        PatternV::Concatenation(ps) => hcp_list(ps),
        PatternV::Alternatives(ps) => hcp_list(ps),
    }
}

/// Are all patterns in the list made of constant parts alone?
pub open spec fn hcp_list(ps: Seq<PatternV>) -> bool
    decreases ps,
{
    if ps.len() == 0 {
        true
    } else {
        has_constant_parts(ps.first()) && hcp_list(ps.drop_first())
    }
}

/// The characters of a pattern that is fully constant, if it is.
pub open spec fn pattern_chars(p: PatternV) -> Option<Seq<char>>
    decreases p,
{
    match p {
        PatternV::Constant(s) => Some(s),
        PatternV::Dynamic => None,
        PatternV::Concatenation(ps) => pattern_chars_list(ps),
        PatternV::Alternatives(_) => None,
    }
}

/// The joined characters of a list of fully constant patterns, if all are.
pub open spec fn pattern_chars_list(ps: Seq<PatternV>) -> Option<Seq<char>>
    decreases ps,
{
    if ps.len() == 0 {
        Some(Seq::empty())
    } else {
        match (pattern_chars(ps.first()), pattern_chars_list(ps.drop_first())) {
            (Some(a), Some(b)) => Some(a + b),
            _ => None,
        }
    }
}

/// Does the pattern certainly match the literal?
pub open spec fn is_match(p: PatternV, lit: Seq<char>) -> bool
    decreases p,
{
    match p {
        PatternV::Constant(s) => s == lit,
        PatternV::Dynamic => false,
        PatternV::Concatenation(_) => pattern_chars(p) == Some(lit),
        PatternV::Alternatives(ps) => im_list(ps, lit),
    }
}

/// Does any pattern in the list certainly match the literal?
pub open spec fn im_list(ps: Seq<PatternV>, lit: Seq<char>) -> bool
    decreases ps,
{
    if ps.len() == 0 {
        false
    } else {
        is_match(ps.first(), lit) || im_list(ps.drop_first(), lit)
    }
}

/// Build the pattern of a value.
pub fn pattern_of(v: &JsValue) -> (r: Pattern)
    ensures
        r@ == to_pattern(v@),
    decreases v, 0int,
{
    match v {
        JsValue::Constant(c) => match c {
            JsConst::Str(s) => Pattern::Constant(s.clone()),
            _ => Pattern::Dynamic,
        },
        JsValue::Alternatives(vs) => {
            let ps = pattern_of_list(vs, 0);
            proof {
                lemma_connect_patterns(vs@, ps@);
            }
            Pattern::Alternatives(ps)
        },
        JsValue::Concat(vs) => {
            let ps = pattern_of_list(vs, 0);
            proof {
                lemma_connect_patterns(vs@, ps@);
            }
            Pattern::Concatenation(ps)
        },
        JsValue::Add(vs) => {
            let ps = pattern_of_list(vs, 0);
            proof {
                lemma_connect_patterns(vs@, ps@);
            }
            Pattern::Concatenation(ps)
        },
        _ => Pattern::Dynamic,
    }
}

/// Patterns of the elements of `vs` from index `i` on.
fn pattern_of_list(vs: &Vec<JsValue>, i: usize) -> (r: Vec<Pattern>)
    requires
        i <= vs@.len(),
    ensures
        r@.len() == vs@.len() - i,
        forall|k: int| 0 <= k < r@.len() ==> (#[trigger] r@[k]).deep() == to_pattern(
            vs@[i + k].deep(),
        ),
    decreases vs, vs@.len() - i,
{
    if i == vs.len() {
        Vec::new()
    } else {
        proof {
            assert(decreases_to!(vs => vs@));
            assert(decreases_to!(vs@ => vs@[i as int]));
        }
        let p0 = pattern_of(&vs[i]);
        let mut rest = pattern_of_list(vs, i + 1);
        rest.insert(0, p0);
        rest
    }
}

/// Elementwise patterns of a vector give `to_pattern_list` of its view.
proof fn lemma_connect_patterns(orig: Seq<JsValue>, out: Seq<Pattern>)
    requires
        out.len() == orig.len(),
        forall|k: int| 0 <= k < out.len() ==> (#[trigger] out[k]).deep() == to_pattern(
            orig[k].deep(),
        ),
    ensures
        pat_list(out) == to_pattern_list(deep_list(orig)),
{
    lemma_pat_list(out);
    lemma_deep_list(orig);
    lemma_to_pattern_list(deep_list(orig));
    assert forall|k: int| 0 <= k < out.len() implies pat_list(out)[k] == to_pattern_list(
        deep_list(orig),
    )[k] by {
        assert(pat_list(out)[k] == out[k].deep());
        assert(deep_list(orig)[k] == orig[k].deep());
    }
    assert(pat_list(out) =~= to_pattern_list(deep_list(orig)));
}

/// Is the pattern made of constant parts alone?
pub fn pattern_has_constant_parts(p: &Pattern) -> (r: bool)
    ensures
        r == has_constant_parts(p@),
    decreases p, 0int,
{
    match p {
        Pattern::Constant(_) => true,
        Pattern::Dynamic => false,
        Pattern::Concatenation(ps) => {
            let r = any_constant_parts(ps, 0);
            proof {
                assert(pat_list(ps@).skip(0) =~= pat_list(ps@));
            }
            r
        },
        Pattern::Alternatives(ps) => {
            let r = any_constant_parts(ps, 0);
            proof {
                assert(pat_list(ps@).skip(0) =~= pat_list(ps@));
            }
            r
        },
    }
}

/// Are all patterns from index `i` on made of constant parts alone?
fn any_constant_parts(ps: &Vec<Pattern>, i: usize) -> (r: bool)
    requires
        i <= ps@.len(),
    ensures
        r == hcp_list(pat_list(ps@).skip(i as int)),
    decreases ps, ps@.len() - i,
{
    proof {
        lemma_pat_list(ps@);
    }
    if i == ps.len() {
        proof {
            assert(pat_list(ps@).skip(i as int) =~= Seq::<PatternV>::empty());
        }
        true
    } else {
        proof {
            assert(decreases_to!(ps => ps@));
            assert(decreases_to!(ps@ => ps@[i as int]));
            assert(pat_list(ps@).skip(i as int).first() == ps@[i as int].deep());
            assert(pat_list(ps@).skip(i as int).drop_first() =~= pat_list(ps@).skip(
                i as int + 1,
            ));
        }
        if pattern_has_constant_parts(&ps[i]) {
            any_constant_parts(ps, i + 1)
        } else {
            false
        }
    }
}


/// The view of an optional owned string.
pub open spec fn opt_chars(o: Option<String>) -> Option<Seq<char>> {
    match o {
        Some(s) => Some(s@),
        None => None,
    }
}

/// The joined literal of a fully constant pattern, if it is one.
pub fn pattern_join(p: &Pattern) -> (r: Option<String>)
    ensures
        opt_chars(r) == pattern_chars(p@),
    decreases p, 0int,
{
    match p {
        Pattern::Constant(s) => Some(s.clone()),
        Pattern::Dynamic => None,
        Pattern::Concatenation(ps) => {
            let r = pattern_join_list(ps, 0);
            proof {
                assert(pat_list(ps@).skip(0) =~= pat_list(ps@));
            }
            r
        },
        Pattern::Alternatives(_) => None,
    }
}

/// The joined literal of the patterns from index `i` on, if all constant.
fn pattern_join_list(ps: &Vec<Pattern>, i: usize) -> (r: Option<String>)
    requires
        i <= ps@.len(),
    ensures
        opt_chars(r) == pattern_chars_list(pat_list(ps@).skip(i as int)),
    decreases ps, ps@.len() - i,
{
    proof {
        lemma_pat_list(ps@);
    }
    if i == ps.len() {
        proof {
            assert(pat_list(ps@).skip(i as int) =~= Seq::<PatternV>::empty());
        }
        Some(String::new())
    } else {
        proof {
            assert(decreases_to!(ps => ps@));
            assert(decreases_to!(ps@ => ps@[i as int]));
            assert(pat_list(ps@).skip(i as int).first() == ps@[i as int].deep());
            assert(pat_list(ps@).skip(i as int).drop_first() =~= pat_list(ps@).skip(
                i as int + 1,
            ));
        }
        let head = pattern_join(&ps[i]);
        match head {
            Some(a) => {
                let rest = pattern_join_list(ps, i + 1);
                match rest {
                    Some(b) => {
                        let mut s = a;
                        s.append(b.as_str());
                        Some(s)
                    },
                    None => None,
                }
            },
            None => None,
        }
    }
}

/// Does the pattern certainly match the literal?
pub fn pattern_matches(p: &Pattern, lit: &String) -> (r: bool)
    ensures
        r == is_match(p@, lit@),
    decreases p, 0int,
{
    match p {
        Pattern::Constant(s) => *s == *lit,
        Pattern::Dynamic => false,
        Pattern::Concatenation(_) => {
            let j = pattern_join(p);
            match j {
                Some(s) => s == *lit,
                None => false,
            }
        },
        Pattern::Alternatives(ps) => {
            let r = any_match(ps, lit, 0);
            proof {
                assert(pat_list(ps@).skip(0) =~= pat_list(ps@));
            }
            r
        },
    }
}

/// Does any pattern from index `i` on certainly match the literal?
fn any_match(ps: &Vec<Pattern>, lit: &String, i: usize) -> (r: bool)
    requires
        i <= ps@.len(),
    ensures
        r == im_list(pat_list(ps@).skip(i as int), lit@),
    decreases ps, ps@.len() - i,
{
    proof {
        lemma_pat_list(ps@);
    }
    if i == ps.len() {
        proof {
            assert(pat_list(ps@).skip(i as int) =~= Seq::<PatternV>::empty());
        }
        false
    } else {
        proof {
            assert(decreases_to!(ps => ps@));
            assert(decreases_to!(ps@ => ps@[i as int]));
            assert(pat_list(ps@).skip(i as int).first() == ps@[i as int].deep());
            assert(pat_list(ps@).skip(i as int).drop_first() =~= pat_list(ps@).skip(
                i as int + 1,
            ));
        }
        if pattern_matches(&ps[i], lit) {
            true
        } else {
            any_match(ps, lit, i + 1)
        }
    }
}

/// Deep copy of a pattern.
pub fn dup_pattern(p: &Pattern) -> (r: Pattern)
    ensures
        r@ == p@,
    decreases p, 0int,
{
    match p {
        Pattern::Constant(s) => Pattern::Constant(s.clone()),
        Pattern::Dynamic => Pattern::Dynamic,
        Pattern::Concatenation(ps) => {
            let l = dup_pattern_list(ps, 0);
            proof {
                assert(pat_list(ps@).skip(0) =~= pat_list(ps@));
            }
            Pattern::Concatenation(l)
        },
        Pattern::Alternatives(ps) => {
            let l = dup_pattern_list(ps, 0);
            proof {
                assert(pat_list(ps@).skip(0) =~= pat_list(ps@));
            }
            Pattern::Alternatives(l)
        },
    }
}

/// Deep copies of the patterns from index `i` on.
fn dup_pattern_list(ps: &Vec<Pattern>, i: usize) -> (r: Vec<Pattern>)
    requires
        i <= ps@.len(),
    ensures
        pat_list(r@) == pat_list(ps@).skip(i as int),
    decreases ps, ps@.len() - i,
{
    proof {
        lemma_pat_list(ps@);
    }
    if i == ps.len() {
        proof {
            assert(pat_list(Seq::<Pattern>::empty()) =~= pat_list(ps@).skip(i as int));
        }
        Vec::new()
    } else {
        proof {
            assert(decreases_to!(ps => ps@));
            assert(decreases_to!(ps@ => ps@[i as int]));
        }
        let p0 = dup_pattern(&ps[i]);
        let ghost p0g = p0;
        let mut rest = dup_pattern_list(ps, i + 1);
        let ghost r0 = rest@;
        rest.insert(0, p0);
        proof {
            assert(rest@ =~= seq![p0g] + r0);
            lemma_pat_list(rest@);
            lemma_pat_list(r0);
            assert forall|k: int| 0 <= k < rest@.len() implies pat_list(rest@)[k] == pat_list(
                ps@,
            ).skip(i as int)[k] by {
                assert(pat_list(rest@)[k] == rest@[k].deep());
                if k > 0 {
                    assert(rest@[k] == r0[k - 1]);
                    assert(pat_list(r0)[k - 1] == r0[k - 1].deep());
                    assert(pat_list(r0)[k - 1] == pat_list(ps@).skip(i as int + 1)[k - 1]);
                    assert(pat_list(ps@).skip(i as int + 1)[k - 1] == pat_list(ps@).skip(
                        i as int,
                    )[k]);
                } else {
                    assert(rest@[0] == p0g);
                    assert(p0g.deep() == ps@[i as int].deep());
                    assert(pat_list(ps@).skip(i as int)[0] == pat_list(ps@)[i as int]);
                }
            }
            assert(pat_list(rest@) =~= pat_list(ps@).skip(i as int));
        }
        rest
    }
}

/// Decides equality of the views of two patterns.
pub fn eq_pattern(a: &Pattern, b: &Pattern) -> (r: bool)
    ensures
        r == (a@ == b@),
    decreases a, 0int,
{
    match (a, b) {
        (Pattern::Constant(x), Pattern::Constant(y)) => *x == *y,
        (Pattern::Dynamic, Pattern::Dynamic) => true,
        (Pattern::Concatenation(x), Pattern::Concatenation(y)) => eq_pattern_lists(x, y),
        (Pattern::Alternatives(x), Pattern::Alternatives(y)) => eq_pattern_lists(x, y),
        _ => false,
    }
}

/// Decides equality of the views of two pattern lists.
fn eq_pattern_lists(a: &Vec<Pattern>, b: &Vec<Pattern>) -> (r: bool)
    ensures
        r == (pat_list(a@) == pat_list(b@)),
    decreases a, 0int,
{
    proof {
        lemma_pat_list(a@);
        lemma_pat_list(b@);
    }
    if a.len() != b.len() {
        return false;
    }
    let mut i: usize = 0;
    while i < a.len()
        invariant
            a@.len() == b@.len(),
            i <= a@.len(),
            forall|j: int| 0 <= j < i ==> #[trigger] a@[j].deep() == b@[j].deep(),
            pat_list(a@).len() == a@.len(),
            pat_list(b@).len() == b@.len(),
            forall|j: int| 0 <= j < a@.len() ==> pat_list(a@)[j] == #[trigger] a@[j].deep(),
            forall|j: int| 0 <= j < b@.len() ==> pat_list(b@)[j] == #[trigger] b@[j].deep(),
        decreases a@.len() - i,
    {
        proof {
            assert(decreases_to!(a => a@));
            assert(decreases_to!(a@ => a@[i as int]));
        }
        if !eq_pattern(&a[i], &b[i]) {
            proof {
                assert(pat_list(a@)[i as int] != pat_list(b@)[i as int]);
            }
            return false;
        }
        i += 1;
    }
    proof {
        assert forall|j: int| 0 <= j < a@.len() implies pat_list(a@)[j] == pat_list(b@)[j] by {
            assert(a@[j].deep() == b@[j].deep());
        }
        assert(pat_list(a@) =~= pat_list(b@));
    }
    true
}

} // verus!
