//! The abstract value lattice.
//!
//! `JsValue` is the executable representation of a partially known
//! JavaScript value; `JsValueV` is its mathematical view, where strings are
//! sequences of characters and vectors are sequences. All contracts in the
//! crate speak about views.

use vstd::prelude::*;

verus! {

broadcast use vstd::std_specs::vec::group_vec_axioms, vstd::seq::group_seq_axioms;

/// A free identifier that the module does not bind.
#[derive(Debug, Clone, Copy, PartialEq, Eq, Structural)]
pub enum FreeVarKind {
    /// The CommonJS `require` function.
    Require,
    /// The `import` function (dynamic import).
    Import,
    /// The CommonJS `__dirname` value.
    Dirname,
    /// The CommonJS `__filename` value.
    Filename,
    /// The Node.js `process` object.
    NodeProcess,
    /// Any other free identifier.
    Other,
}

/// A file-system read method of the `fs` module.
#[derive(Debug, Clone, Copy, PartialEq, Eq, Structural)]
pub enum FsMethod {
    ReadFile,
    ReadFileSync,
}

/// A process-spawning method of the `child_process` module.
#[derive(Debug, Clone, Copy, PartialEq, Eq, Structural)]
pub enum SpawnMethod {
    Spawn,
    SpawnSync,
}

/// A canonical host function.
#[derive(Debug, Clone, Copy, PartialEq, Eq, Structural)]
pub enum WellKnownFunctionKind {
    Import,
    Require,
    RequireResolve,
    PathJoin,
    FsReadMethod(FsMethod),
    ChildProcessSpawnMethod(SpawnMethod),
    ChildProcessFork,
}

/// A canonical host object.
#[derive(Debug, Clone, Copy, PartialEq, Eq, Structural)]
pub enum WellKnownObjectKind {
    NodeProcess,
    PathModule,
    FsModule,
    ChildProcess,
    OsModule,
}

/// Why a value could not be analyzed further.
#[derive(Debug, Clone, Copy, PartialEq, Eq, Structural)]
pub enum UnknownReason {
    /// A binding was read while its own expansion was in progress.
    CircularVariableReference,
    /// A free identifier with no known host meaning.
    UnknownGlobal,
    /// `require.resolve` was called with more than one argument.
    OnlySingleArgumentSupported,
    /// The host resolver could not resolve the request.
    UnresolveableRequest,
    /// The value comes from another module.
    CrossModuleAnalyzing,
    /// The value is a parameter of a function called from elsewhere.
    CrossFunctionAnalyzing,
    /// A call effect carries no receiver.
    NoThisProvided,
    /// A variable reference names a binding the graph does not hold.
    MissingBinding,
}

/// A logical operator joining parts of a `Logical` value.
#[derive(Debug, Clone, Copy, PartialEq, Eq, Structural)]
pub enum LogicalOp {
    And,
    Or,
    NullishCoalescing,
}

/// A primitive constant.
#[derive(Debug)]
pub enum JsConst {
    Str(String),
    /// Numeric literals are modeled as integers.
    Num(i64),
    Bool(bool),
    Null,
    Undefined,
    BigInt(i64),
    Regex(String),
}

/// Mathematical view of a primitive constant.
pub enum ConstV {
    Str(Seq<char>),
    Num(i64),
    Bool(bool),
    Null,
    Undefined,
    BigInt(i64),
    Regex(Seq<char>),
}

/// An abstract JavaScript value.
#[derive(Debug)]
pub enum JsValue {
    /// A fully known primitive.
    Constant(JsConst),
    /// An array literal.
    Array(Vec<JsValue>),
    /// An object literal: entries in source order.
    Object(Vec<(String, JsValue)>),
    /// String concatenation of the parts.
    Concat(Vec<JsValue>),
    /// The JavaScript `+` chain over the parts.
    Add(Vec<JsValue>),
    /// A chain joined by one logical operator.
    Logical(LogicalOp, Vec<JsValue>),
    /// A call of the first value with the remaining values as arguments.
    Call(Box<JsValue>, Vec<JsValue>),
    /// A property access.
    Member(Box<JsValue>, Box<JsValue>),
    /// A reference into the variable graph.
    Variable(u32),
    /// The join of a control-flow merge; semantically a set.
    Alternatives(Vec<JsValue>),
    /// An unresolved free identifier.
    FreeVar(FreeVarKind),
    /// A named bare-specifier dependency.
    Module(String),
    /// A function parameter at unknown call sites.
    Argument(usize),
    WellKnownFunction(WellKnownFunctionKind),
    WellKnownObject(WellKnownObjectKind),
    /// Top of the lattice, with the originating value where one is known.
    Unknown(Option<Box<JsValue>>, UnknownReason),
}

/// Mathematical view of an abstract value.
pub enum JsValueV {
    Constant(ConstV),
    Array(Seq<JsValueV>),
    Object(Seq<(Seq<char>, JsValueV)>),
    Concat(Seq<JsValueV>),
    Add(Seq<JsValueV>),
    Logical(LogicalOp, Seq<JsValueV>),
    Call(Box<JsValueV>, Seq<JsValueV>),
    Member(Box<JsValueV>, Box<JsValueV>),
    Variable(u32),
    Alternatives(Seq<JsValueV>),
    FreeVar(FreeVarKind),
    Module(Seq<char>),
    Argument(usize),
    WellKnownFunction(WellKnownFunctionKind),
    WellKnownObject(WellKnownObjectKind),
    Unknown(Option<Box<JsValueV>>, UnknownReason),
}

impl View for JsConst {
    type V = ConstV;

    open spec fn view(&self) -> ConstV {
        match self {
            JsConst::Str(s) => ConstV::Str(s@),
            JsConst::Num(n) => ConstV::Num(*n),
            JsConst::Bool(b) => ConstV::Bool(*b),
            JsConst::Null => ConstV::Null,
            JsConst::Undefined => ConstV::Undefined,
            JsConst::BigInt(n) => ConstV::BigInt(*n),
            JsConst::Regex(s) => ConstV::Regex(s@),
        }
    }
}

impl JsValue {
    /// The mathematical view of this value.
    pub open spec fn deep(self) -> JsValueV
        decreases self,
    {
        match self {
            JsValue::Constant(c) => JsValueV::Constant(c@),
            JsValue::Array(vs) => JsValueV::Array(deep_list(vs@)),
            JsValue::Object(es) => JsValueV::Object(deep_entries(es@)),
            JsValue::Concat(vs) => JsValueV::Concat(deep_list(vs@)),
            JsValue::Add(vs) => JsValueV::Add(deep_list(vs@)),
            JsValue::Logical(op, vs) => JsValueV::Logical(op, deep_list(vs@)),
            JsValue::Call(f, args) => JsValueV::Call(
                Box::new((*f).deep()),
                deep_list(args@),
            ),
            JsValue::Member(o, p) => JsValueV::Member(
                Box::new((*o).deep()),
                Box::new((*p).deep()),
            ),
            JsValue::Variable(id) => JsValueV::Variable(id),
            JsValue::Alternatives(vs) => JsValueV::Alternatives(deep_list(vs@)),
            JsValue::FreeVar(k) => JsValueV::FreeVar(k),
            JsValue::Module(name) => JsValueV::Module(name@),
            JsValue::Argument(i) => JsValueV::Argument(i),
            JsValue::WellKnownFunction(k) => JsValueV::WellKnownFunction(k),
            JsValue::WellKnownObject(k) => JsValueV::WellKnownObject(k),
            JsValue::Unknown(orig, reason) => JsValueV::Unknown(opt_deep(orig), reason),
        }
    }
}

/// The view of an optional originating value.
pub open spec fn opt_deep(o: Option<Box<JsValue>>) -> Option<Box<JsValueV>>
    decreases o,
{
    match o {
        Some(b) => Some(Box::new((*b).deep())),
        None => None,
    }
}

/// The views of a sequence of values, elementwise.
pub open spec fn deep_list(vs: Seq<JsValue>) -> Seq<JsValueV>
    decreases vs,
{
    if vs.len() == 0 {
        Seq::empty()
    } else {
        seq![vs.first().deep()] + deep_list(vs.drop_first())
    }
}

/// The views of a sequence of object entries, elementwise.
pub open spec fn deep_entries(es: Seq<(String, JsValue)>) -> Seq<(Seq<char>, JsValueV)>
    decreases es,
{
    if es.len() == 0 {
        Seq::empty()
    } else {
        seq![(es.first().0@, es.first().1.deep())] + deep_entries(es.drop_first())
    }
}

/// `deep_list` maps the view elementwise.
pub proof fn lemma_deep_list(vs: Seq<JsValue>)
    ensures
        deep_list(vs).len() == vs.len(),
        forall|i: int| 0 <= i < vs.len() ==> deep_list(vs)[i] == #[trigger] vs[i].deep(),
    decreases vs.len(),
{
    if vs.len() > 0 {
        lemma_deep_list(vs.drop_first());
        assert forall|i: int| 0 <= i < vs.len() implies deep_list(vs)[i]
            == #[trigger] vs[i].deep() by {
            if i > 0 {
                assert(deep_list(vs)[i] == deep_list(vs.drop_first())[i - 1]);
                assert(vs.drop_first()[i - 1] == vs[i]);
            }
        }
    }
}

/// `deep_entries` maps the view elementwise.
pub proof fn lemma_deep_entries(es: Seq<(String, JsValue)>)
    ensures
        deep_entries(es).len() == es.len(),
        forall|i: int| 0 <= i < es.len() ==> deep_entries(es)[i]
            == (#[trigger] es[i].0@, es[i].1.deep()),
    decreases es.len(),
{
    if es.len() > 0 {
        lemma_deep_entries(es.drop_first());
        assert forall|i: int| 0 <= i < es.len() implies deep_entries(es)[i]
            == (#[trigger] es[i].0@, es[i].1.deep()) by {
            if i > 0 {
                assert(deep_entries(es)[i] == deep_entries(es.drop_first())[i - 1]);
                assert(es.drop_first()[i - 1] == es[i]);
            }
        }
    }
}

impl View for JsValue {
    type V = JsValueV;

    open spec fn view(&self) -> JsValueV {
        self.deep()
    }
}

/// Deep copy: the copy has the same view as the original.
pub fn dup(v: &JsValue) -> (r: JsValue)
    ensures
        r@ == v@,
    decreases v,
{
    match v {
        JsValue::Constant(c) => JsValue::Constant(dup_const(c)),
        JsValue::Array(vs) => JsValue::Array(dup_list(vs)),
        JsValue::Object(es) => JsValue::Object(dup_entries(es)),
        JsValue::Concat(vs) => JsValue::Concat(dup_list(vs)),
        JsValue::Add(vs) => JsValue::Add(dup_list(vs)),
        JsValue::Logical(op, vs) => JsValue::Logical(*op, dup_list(vs)),
        JsValue::Call(f, args) => JsValue::Call(Box::new(dup(f)), dup_list(args)),
        JsValue::Member(o, p) => JsValue::Member(Box::new(dup(o)), Box::new(dup(p))),
        JsValue::Variable(id) => JsValue::Variable(*id),
        JsValue::Alternatives(vs) => JsValue::Alternatives(dup_list(vs)),
        JsValue::FreeVar(k) => JsValue::FreeVar(*k),
        JsValue::Module(name) => JsValue::Module(name.clone()),
        JsValue::Argument(i) => JsValue::Argument(*i),
        JsValue::WellKnownFunction(k) => JsValue::WellKnownFunction(*k),
        JsValue::WellKnownObject(k) => JsValue::WellKnownObject(*k),
        JsValue::Unknown(orig, reason) => JsValue::Unknown(dup_opt(orig), *reason),
    }
}

/// Deep copy of an optional originating value.
pub fn dup_opt(o: &Option<Box<JsValue>>) -> (r: Option<Box<JsValue>>)
    ensures
        opt_deep(r) == opt_deep(*o),
    decreases o,
{
    match o {
        Some(b) => Some(Box::new(dup(b))),
        None => None,
    }
}

/// Deep copy of a primitive constant.
pub fn dup_const(c: &JsConst) -> (r: JsConst)
    ensures
        r@ == c@,
{
    match c {
        JsConst::Str(s) => JsConst::Str(s.clone()),
        JsConst::Num(n) => JsConst::Num(*n),
        JsConst::Bool(b) => JsConst::Bool(*b),
        JsConst::Null => JsConst::Null,
        JsConst::Undefined => JsConst::Undefined,
        JsConst::BigInt(n) => JsConst::BigInt(*n),
        JsConst::Regex(s) => JsConst::Regex(s.clone()),
    }
}

/// Deep copy of a list of values.
pub fn dup_list(vs: &Vec<JsValue>) -> (r: Vec<JsValue>)
    ensures
        deep_list(r@) == deep_list(vs@),
        r@.len() == vs@.len(),
    decreases vs,
{
    let mut out: Vec<JsValue> = Vec::new();
    let mut i: usize = 0;
    while i < vs.len()
        invariant
            i <= vs@.len(),
            out@.len() == i,
            forall|j: int| 0 <= j < i ==> out@[j].deep() == #[trigger] vs@[j].deep(),
        decreases vs@.len() - i,
    {
        proof {
            assert(decreases_to!(vs => vs@));
            assert(decreases_to!(vs@ => vs@[i as int]));
        }
        let e = dup(&vs[i]);
        out.push(e);
        i += 1;
    }
    proof {
        lemma_deep_list(out@);
        lemma_deep_list(vs@);
        assert forall|j: int| 0 <= j < out@.len() implies deep_list(out@)[j]
            == deep_list(vs@)[j] by {
            assert(out@[j].deep() == vs@[j].deep());
        }
        assert(deep_list(out@) =~= deep_list(vs@));
    }
    out
}

/// Deep copy of a list of object entries.
pub fn dup_entries(es: &Vec<(String, JsValue)>) -> (r: Vec<(String, JsValue)>)
    ensures
        deep_entries(r@) == deep_entries(es@),
        r@.len() == es@.len(),
    decreases es,
{
    let mut out: Vec<(String, JsValue)> = Vec::new();
    let mut i: usize = 0;
    while i < es.len()
        invariant
            i <= es@.len(),
            out@.len() == i,
            forall|j: int| 0 <= j < i ==> (#[trigger] out@[j]).0 == es@[j].0,
            forall|j: int| 0 <= j < i ==> out@[j].1.deep() == #[trigger] es@[j].1.deep(),
        decreases es@.len() - i,
    {
        proof {
            assert(decreases_to!(es => es@));
            assert(decreases_to!(es@ => es@[i as int]));
            assert(decreases_to!(es@[i as int] => es@[i as int].1));
        }
        let key = es[i].0.clone();
        let val = dup(&es[i].1);
        out.push((key, val));
        i += 1;
    }
    proof {
        lemma_deep_entries(out@);
        lemma_deep_entries(es@);
        assert forall|j: int| 0 <= j < out@.len() implies deep_entries(out@)[j]
            == deep_entries(es@)[j] by {
            assert(out@[j].0 == es@[j].0);
            assert(out@[j].1.deep() == es@[j].1.deep());
            assert(deep_entries(out@)[j] == (out@[j].0@, out@[j].1.deep()));
            assert(deep_entries(es@)[j] == (es@[j].0@, es@[j].1.deep()));
        }
        assert(deep_entries(out@) =~= deep_entries(es@));
    }
    out
}

/// Decides equality of the views of two primitive constants.
pub fn eq_const(a: &JsConst, b: &JsConst) -> (r: bool)
    ensures
        r == (a@ == b@),
{
    match (a, b) {
        (JsConst::Str(x), JsConst::Str(y)) => *x == *y,
        (JsConst::Num(x), JsConst::Num(y)) => *x == *y,
        (JsConst::Bool(x), JsConst::Bool(y)) => *x == *y,
        (JsConst::Null, JsConst::Null) => true,
        (JsConst::Undefined, JsConst::Undefined) => true,
        (JsConst::BigInt(x), JsConst::BigInt(y)) => *x == *y,
        (JsConst::Regex(x), JsConst::Regex(y)) => *x == *y,
        _ => false,
    }
}

/// Decides equality of the views of two values.
pub fn eq_value(a: &JsValue, b: &JsValue) -> (r: bool)
    ensures
        r == (a@ == b@),
    decreases a,
{
    match (a, b) {
        (JsValue::Constant(x), JsValue::Constant(y)) => eq_const(x, y),
        (JsValue::Array(x), JsValue::Array(y)) => eq_list(x, y),
        (JsValue::Object(x), JsValue::Object(y)) => eq_entries(x, y),
        (JsValue::Concat(x), JsValue::Concat(y)) => eq_list(x, y),
        (JsValue::Add(x), JsValue::Add(y)) => eq_list(x, y),
        (JsValue::Logical(op1, x), JsValue::Logical(op2, y)) => *op1 == *op2 && eq_list(x, y),
        (JsValue::Call(f1, a1), JsValue::Call(f2, a2)) => eq_value(f1, f2) && eq_list(a1, a2),
        (JsValue::Member(o1, p1), JsValue::Member(o2, p2)) => eq_value(o1, o2) && eq_value(
            p1,
            p2,
        ),
        (JsValue::Variable(x), JsValue::Variable(y)) => *x == *y,
        (JsValue::Alternatives(x), JsValue::Alternatives(y)) => eq_list(x, y),
        (JsValue::FreeVar(x), JsValue::FreeVar(y)) => *x == *y,
        (JsValue::Module(x), JsValue::Module(y)) => *x == *y,
        (JsValue::Argument(x), JsValue::Argument(y)) => *x == *y,
        (JsValue::WellKnownFunction(x), JsValue::WellKnownFunction(y)) => *x == *y,
        (JsValue::WellKnownObject(x), JsValue::WellKnownObject(y)) => *x == *y,
        (JsValue::Unknown(o1, r1), JsValue::Unknown(o2, r2)) => eq_opt(o1, o2) && *r1 == *r2,
        _ => false,
    }
}

/// Decides equality of the views of two optional originating values.
pub fn eq_opt(a: &Option<Box<JsValue>>, b: &Option<Box<JsValue>>) -> (r: bool)
    ensures
        r == (opt_deep(*a) == opt_deep(*b)),
    decreases a,
{
    match (a, b) {
        (Option::Some(x), Option::Some(y)) => eq_value(x, y),
        (Option::None, Option::None) => true,
        _ => false,
    }
}

/// Decides equality of the views of two lists of values.
pub fn eq_list(a: &Vec<JsValue>, b: &Vec<JsValue>) -> (r: bool)
    ensures
        r == (deep_list(a@) == deep_list(b@)),
    decreases a,
{
    proof {
        lemma_deep_list(a@);
        lemma_deep_list(b@);
    }
    if a.len() != b.len() {
        return false;
    }
    let mut i: usize = 0;
    while i < a.len()
        invariant
            a@.len() == b@.len(),
            i <= a@.len(),
            forall|j: int| 0 <= j < i ==> #[trigger] a@[j].deep() == b@[j].deep(),
            deep_list(a@).len() == a@.len(),
            deep_list(b@).len() == b@.len(),
            forall|j: int| 0 <= j < a@.len() ==> deep_list(a@)[j] == #[trigger] a@[j].deep(),
            forall|j: int| 0 <= j < b@.len() ==> deep_list(b@)[j] == #[trigger] b@[j].deep(),
        decreases a@.len() - i,
    {
        proof {
            assert(decreases_to!(a => a@));
            assert(decreases_to!(a@ => a@[i as int]));
        }
        if !eq_value(&a[i], &b[i]) {
            proof {
                assert(deep_list(a@)[i as int] != deep_list(b@)[i as int]);
            }
            return false;
        }
        i += 1;
    }
    proof {
        assert forall|j: int| 0 <= j < a@.len() implies deep_list(a@)[j]
            == deep_list(b@)[j] by {
            assert(a@[j].deep() == b@[j].deep());
        }
        assert(deep_list(a@) =~= deep_list(b@));
    }
    true
}

/// Decides equality of the views of two lists of object entries.
pub fn eq_entries(a: &Vec<(String, JsValue)>, b: &Vec<(String, JsValue)>) -> (r: bool)
    ensures
        r == (deep_entries(a@) == deep_entries(b@)),
    decreases a,
{
    proof {
        lemma_deep_entries(a@);
        lemma_deep_entries(b@);
    }
    if a.len() != b.len() {
        return false;
    }
    let mut i: usize = 0;
    while i < a.len()
        invariant
            a@.len() == b@.len(),
            i <= a@.len(),
            forall|j: int| 0 <= j < i ==> #[trigger] a@[j].0@ == b@[j].0@,
            forall|j: int| 0 <= j < i ==> #[trigger] a@[j].1.deep() == b@[j].1.deep(),
            deep_entries(a@).len() == a@.len(),
            deep_entries(b@).len() == b@.len(),
            forall|j: int| 0 <= j < a@.len() ==> deep_entries(a@)[j] == (
                #[trigger] a@[j].0@,
                a@[j].1.deep(),
            ),
            forall|j: int| 0 <= j < b@.len() ==> deep_entries(b@)[j] == (
                #[trigger] b@[j].0@,
                b@[j].1.deep(),
            ),
        decreases a@.len() - i,
    {
        proof {
            assert(decreases_to!(a => a@));
            assert(decreases_to!(a@ => a@[i as int]));
            assert(decreases_to!(a@[i as int] => a@[i as int].1));
        }
        if !(a[i].0 == b[i].0) {
            proof {
                assert(deep_entries(a@)[i as int].0 != deep_entries(b@)[i as int].0);
            }
            return false;
        }
        if !eq_value(&a[i].1, &b[i].1) {
            proof {
                assert(deep_entries(a@)[i as int].1 != deep_entries(b@)[i as int].1);
            }
            return false;
        }
        i += 1;
    }
    proof {
        assert forall|j: int| 0 <= j < a@.len() implies deep_entries(a@)[j]
            == deep_entries(b@)[j] by {
            assert(a@[j].0@ == b@[j].0@);
            assert(a@[j].1.deep() == b@[j].1.deep());
        }
        assert(deep_entries(a@) =~= deep_entries(b@));
    }
    true
}

/// Appending one value appends its view.
pub proof fn lemma_deep_list_push(vs: Seq<JsValue>, v: JsValue)
    ensures
        deep_list(vs.push(v)) == deep_list(vs).push(v.deep()),
{
    lemma_deep_list(vs.push(v));
    lemma_deep_list(vs);
    assert forall|i: int| 0 <= i < vs.len() + 1 implies deep_list(vs.push(v))[i]
        == deep_list(vs).push(v.deep())[i] by {
        if i < vs.len() {
            assert(vs.push(v)[i] == vs[i]);
            assert(deep_list(vs.push(v))[i] == vs.push(v)[i].deep());
            assert(deep_list(vs)[i] == vs[i].deep());
            assert(deep_list(vs).push(v.deep())[i] == deep_list(vs)[i]);
        } else {
            assert(vs.push(v)[i] == v);
            assert(deep_list(vs.push(v))[i] == vs.push(v)[i].deep());
            assert(deep_list(vs).push(v.deep())[i] == v.deep());
        }
    }
    assert(deep_list(vs.push(v)) =~= deep_list(vs).push(v.deep()));
}

} // verus!
