//! The analysis driver: the syntactic pass, the effect handler, and the
//! entry point that produces the module's references and diagnostics.

use vstd::prelude::*;
use crate::value::{JsValue, JsValueV, JsConst, ConstV, WellKnownFunctionKind, FsMethod,
    SpawnMethod, UnknownReason, deep_list, lemma_deep_list, dup, dup_list, dup_const};
use crate::pattern::{Pattern, PatternV, to_pattern, pattern_of, has_constant_parts,
    pattern_has_constant_parts, is_match, pattern_matches, dup_pattern};
use crate::graph::{Span, Effect, EffectV, VarGraph, VarGraphV, effect_views,
    lemma_effect_views};
use crate::ast::{Expr, MemberProp, Callee, VarDeclarator, Stmt, ImportSpecifier, ImportDecl,
    ModuleItem, CommentKind, Comment, Module, ParseResult};
use crate::host::{HostAnswers, HostV, lookup_webpack};
use crate::refs::{Request, WebpackRuntime, WebpackRuntimeV, EsmAssetReference,
    CjsAssetReference, SourceAssetReference, PackageJsonReference, TsConfigReference,
    TsReferencePathAssetReference, TsReferenceTypeAssetReference,
    WebpackRuntimeAssetReference, WebpackEntryAssetReference, WebpackChunkAssetReference,
    AssetReference, RefV, ref_views, lemma_ref_views, lemma_ref_views_push, dec_chars,
    int_chars, u64_to_string, i64_to_string};
use crate::lower::str_is;

verus! {

broadcast use vstd::std_specs::vec::group_vec_axioms, vstd::seq::group_seq_axioms;

/// The language of the module under analysis.
#[derive(Debug, Clone, Copy, PartialEq, Eq, Structural)]
pub enum ModuleAssetType {
    Ecmascript,
    Typescript,
    TypescriptDeclaration,
}

/// The compile target; passed through to the lowering, which treats it as
/// opaque.
#[derive(Debug, Clone, Copy, PartialEq, Eq, Structural)]
pub struct CompileTarget {
    pub is_server: bool,
}

/// How severe a diagnostic is.
#[derive(Debug, Clone, Copy, PartialEq, Eq, Structural)]
pub enum Severity {
    /// Dynamic but partially analyzable.
    Lint,
    /// Not statically analyzable.
    Error,
}

/// The stable code of a diagnostic.
#[derive(Debug, Clone, Copy, PartialEq, Eq, Structural)]
pub enum DiagnosticCode {
    DynamicImport,
    Require,
    RequireResolve,
    FsMethod,
    PathMethod,
    ChildProcessSpawn,
}

impl DiagnosticCode {
    /// The stable text of this code.
    pub fn text(&self) -> (r: String)
        ensures
            r@ == code_chars(*self),
    {
        proof {
            reveal_strlit("DYNAMIC_IMPORT");
            reveal_strlit("REQUIRE");
            reveal_strlit("REQUIRE_RESOLVE");
            reveal_strlit("FS_METHOD");
            reveal_strlit("PATH_METHOD");
            reveal_strlit("CHILD_PROCESS_SPAWN");
        }
        match self {
            DiagnosticCode::DynamicImport => String::from_str("DYNAMIC_IMPORT"),
            DiagnosticCode::Require => String::from_str("REQUIRE"),
            DiagnosticCode::RequireResolve => String::from_str("REQUIRE_RESOLVE"),
            DiagnosticCode::FsMethod => String::from_str("FS_METHOD"),
            DiagnosticCode::PathMethod => String::from_str("PATH_METHOD"),
            DiagnosticCode::ChildProcessSpawn => String::from_str("CHILD_PROCESS_SPAWN"),
        }
    }
}

/// The stable text of a diagnostic code.
pub open spec fn code_chars(c: DiagnosticCode) -> Seq<char> {
    match c {
        DiagnosticCode::DynamicImport => "DYNAMIC_IMPORT"@,
        DiagnosticCode::Require => "REQUIRE"@,
        DiagnosticCode::RequireResolve => "REQUIRE_RESOLVE"@,
        DiagnosticCode::FsMethod => "FS_METHOD"@,
        DiagnosticCode::PathMethod => "PATH_METHOD"@,
        DiagnosticCode::ChildProcessSpawn => "CHILD_PROCESS_SPAWN"@,
    }
}

/// One diagnostic of the analysis.
#[derive(Debug, Clone, Copy, PartialEq, Eq, Structural)]
pub struct Diagnostic {
    pub severity: Severity,
    pub span: Span,
    pub code: DiagnosticCode,
}

/// The subject named in a diagnostic's message.
pub open spec fn subject_chars(c: DiagnosticCode) -> Seq<char> {
    match c {
        DiagnosticCode::DynamicImport => "import(..)"@,
        DiagnosticCode::Require => "require(..)"@,
        DiagnosticCode::RequireResolve => "require.resolve(..)"@,
        DiagnosticCode::FsMethod => "a file system read"@,
        DiagnosticCode::PathMethod => "path.join(..)"@,
        DiagnosticCode::ChildProcessSpawn => "a child process call"@,
    }
}

/// The message of a diagnostic: the subject, and how far the analysis got.
pub open spec fn message_chars(c: DiagnosticCode, s: Severity) -> Seq<char> {
    subject_chars(c) + (match s {
        Severity::Lint => " is very dynamic"@,
        Severity::Error => " is not statically analyse-able"@,
    })
}

impl Diagnostic {
    /// The human-readable message of this diagnostic.
    pub fn message(&self) -> (r: String)
        ensures
            r@ == message_chars(self.code, self.severity),
    {
        let mut m = match self.code {
            DiagnosticCode::DynamicImport => String::from_str("import(..)"),
            DiagnosticCode::Require => String::from_str("require(..)"),
            DiagnosticCode::RequireResolve => String::from_str("require.resolve(..)"),
            DiagnosticCode::FsMethod => String::from_str("a file system read"),
            DiagnosticCode::PathMethod => String::from_str("path.join(..)"),
            DiagnosticCode::ChildProcessSpawn => String::from_str("a child process call"),
        };
        match self.severity {
            Severity::Lint => m.append(" is very dynamic"),
            Severity::Error => m.append(" is not statically analyse-able"),
        }
        m
    }
}

/// The outcome of one analysis.
#[derive(Debug)]
pub struct AnalysisResult {
    pub references: Vec<AssetReference>,
    pub diagnostics: Vec<Diagnostic>,
}

/// A value of the tiny lattice used to recognize webpack signatures.
#[derive(Debug)]
pub enum StaticExpr {
    Str(String),
    FreeVarPath(Vec<String>),
    ImportedVar(String, Vec<String>),
    Opaque,
}

/// Mathematical view of a static expression.
pub enum StaticExprV {
    Str(Seq<char>),
    FreeVarPath(Seq<Seq<char>>),
    ImportedVar(Seq<char>, Seq<Seq<char>>),
    Opaque,
}

impl View for StaticExpr {
    type V = StaticExprV;

    open spec fn view(&self) -> StaticExprV {
        match self {
            StaticExpr::Str(s) => StaticExprV::Str(s@),
            StaticExpr::FreeVarPath(p) => StaticExprV::FreeVarPath(
                Seq::new(p@.len(), |i: int| p@[i]@),
            ),
            StaticExpr::ImportedVar(m, p) => StaticExprV::ImportedVar(
                m@,
                Seq::new(p@.len(), |i: int| p@[i]@),
            ),
            StaticExpr::Opaque => StaticExprV::Opaque,
        }
    }
}

/// The import table of the old analyser: local name to module and path.
pub type ImportsV = Seq<(Seq<char>, (Seq<char>, Seq<Seq<char>>))>;

/// The view of an executable import table.
pub open spec fn imports_view(t: Seq<(String, (String, Vec<String>))>) -> ImportsV {
    Seq::new(
        t.len(),
        |i: int| (t[i].0@, (t[i].1.0@, Seq::new(t[i].1.1@.len(), |j: int| t[i].1.1@[j]@))),
    )
}

/// The import a local name refers to, if any; the latest entry wins.
pub open spec fn lookup_imports(t: ImportsV, name: Seq<char>) -> Option<
    (Seq<char>, Seq<Seq<char>>),
>
    decreases t,
{
    if t.len() == 0 {
        None
    } else if t.last().0 == name {
        Some(t.last().1)
    } else {
        lookup_imports(t.drop_last(), name)
    }
}

/// The small static analyser that recognizes the webpack signatures.
#[derive(Debug)]
pub struct StaticAnalyser {
    pub imports: Vec<(String, (String, Vec<String>))>,
}

/// The property name of a member access, where it is statically known.
pub open spec fn spec_prop_to_name(t: ImportsV, prop: MemberProp) -> Option<Seq<char>>
    decreases prop, 2int,
{
    match prop {
        MemberProp::Ident(name) => Some(name@),
        MemberProp::Computed(e) => match spec_evaluate(t, *e) {
            StaticExprV::Str(s) => Some(s),
            _ => None,
        },
    }
}

/// Evaluate an expression in the tiny static lattice.
pub open spec fn spec_evaluate(t: ImportsV, e: Expr) -> StaticExprV
    decreases e, 3int,
{
    match e {
        Expr::Lit(c) => match c {
            JsConst::Str(s) => StaticExprV::Str(s@),
            _ => StaticExprV::Opaque,
        },
        Expr::Ident(name) => match lookup_imports(t, name@) {
            Some(entry) => StaticExprV::ImportedVar(entry.0, entry.1),
            None => StaticExprV::FreeVarPath(seq![name@]),
        },
        Expr::Member { obj, prop } => match spec_evaluate(t, *obj) {
            StaticExprV::FreeVarPath(path) => match spec_prop_to_name(t, prop) {
                Some(name) => StaticExprV::FreeVarPath(path.push(name)),
                None => StaticExprV::Opaque,
            },
            StaticExprV::ImportedVar(m, path) => match spec_prop_to_name(t, prop) {
                Some(name) => StaticExprV::ImportedVar(m, path.push(name)),
                None => StaticExprV::Opaque,
            },
            _ => StaticExprV::Opaque,
        },
        _ => StaticExprV::Opaque,
    }
}

impl StaticAnalyser {
    /// The property name of a member access, where it is statically known.
    pub fn prop_to_name(&self, prop: &MemberProp) -> (r: Option<String>)
        ensures
            (match r {
                Some(s) => spec_prop_to_name(imports_view(self.imports@), *prop) == Some(s@),
                None => spec_prop_to_name(imports_view(self.imports@), *prop) is None,
            }),
        decreases prop, 2int,
    {
        match prop {
            MemberProp::Ident(name) => Some(name.clone()),
            MemberProp::Computed(e) => {
                proof {
                    assert(*prop matches MemberProp::Computed(b) && b == *e);
                }
                match self.evaluate_expr(e) {
                    StaticExpr::Str(s) => Some(s),
                    _ => None,
                }
            },
        }
    }

    /// Evaluate an expression in the tiny static lattice.
    pub fn evaluate_expr(&self, e: &Expr) -> (r: StaticExpr)
        ensures
            r@ == spec_evaluate(imports_view(self.imports@), *e),
        decreases e, 3int,
    {
        match e {
            Expr::Lit(c) => match c {
                JsConst::Str(s) => {
                    proof {
                        assert(*e matches Expr::Lit(c0) && c0 == *c);
                    }
                    StaticExpr::Str(s.clone())
                },
                _ => {
                    proof {
                        assert(*e matches Expr::Lit(c0) && c0 == *c);
                    }
                    StaticExpr::Opaque
                },
            },
            Expr::Ident(name) => {
                proof {
                    assert(*e matches Expr::Ident(n0) && n0 == *name);
                }
                match self.find_import(name) {
                    Some(entry) => StaticExpr::ImportedVar(entry.0, entry.1),
                    None => {
                        let mut path: Vec<String> = Vec::new();
                        path.push(name.clone());
                        let r = StaticExpr::FreeVarPath(path);
                        proof {
                            assert(r@ matches StaticExprV::FreeVarPath(p) && p
                                =~= seq![name@]);
                        }
                        r
                    },
                }
            },
            Expr::Member { obj, prop } => {
                proof {
                    assert(*e matches Expr::Member { obj: o0, prop: p0 } && o0 == *obj && p0
                        == *prop);
                }
                match self.evaluate_expr(obj) {
                    StaticExpr::FreeVarPath(path) => match self.prop_to_name(prop) {
                        Some(name) => {
                            let ghost p0 = path@;
                            let mut path = path;
                            path.push(name);
                            let r = StaticExpr::FreeVarPath(path);
                            proof {
                                assert(Seq::new(path@.len(), |i: int| path@[i]@) =~= Seq::new(
                                    p0.len(),
                                    |i: int| p0[i]@,
                                ).push(path@[p0.len() as int]@));
                            }
                            r
                        },
                        None => StaticExpr::Opaque,
                    },
                    StaticExpr::ImportedVar(m, path) => match self.prop_to_name(prop) {
                        Some(name) => {
                            let ghost p0 = path@;
                            let mut path = path;
                            path.push(name);
                            let r = StaticExpr::ImportedVar(m, path);
                            proof {
                                assert(Seq::new(path@.len(), |i: int| path@[i]@) =~= Seq::new(
                                    p0.len(),
                                    |i: int| p0[i]@,
                                ).push(path@[p0.len() as int]@));
                            }
                            r
                        },
                        None => StaticExpr::Opaque,
                    },
                    _ => StaticExpr::Opaque,
                }
            },
            _ => StaticExpr::Opaque,
        }
    }

    /// Look a local name up in the import table; the latest entry wins.
    fn find_import(&self, name: &String) -> (r: Option<(String, Vec<String>)>)
        ensures
            (match r {
                Some(entry) => lookup_imports(imports_view(self.imports@), name@) matches Some(
                    se,
                ) && se.0 == entry.0@ && se.1 == Seq::new(
                    entry.1@.len(),
                    |j: int| entry.1@[j]@,
                ),
                None => lookup_imports(imports_view(self.imports@), name@) is None,
            }),
    {
        let ghost tv = imports_view(self.imports@);
        let mut i: usize = self.imports.len();
        proof {
            assert(tv.take(i as int) =~= tv);
        }
        while i > 0
            invariant
                tv == imports_view(self.imports@),
                i <= self.imports@.len(),
                tv.len() == self.imports@.len(),
                lookup_imports(tv, name@) == lookup_imports(tv.take(i as int), name@),
            decreases i,
        {
            proof {
                assert(tv.take(i as int).last() == tv[i - 1]);
                assert(tv.take(i as int).drop_last() =~= tv.take(i as int - 1));
            }
            if self.imports[i - 1].0.eq(name) {
                let module_name = self.imports[i - 1].1.0.clone();
                let mut path: Vec<String> = Vec::new();
                let mut j: usize = 0;
                while j < self.imports[i - 1].1.1.len()
                    invariant
                        i >= 1,
                        i <= self.imports@.len(),
                        j <= self.imports@[i - 1].1.1@.len(),
                        path@.len() == j,
                        forall|k: int| 0 <= k < j ==> #[trigger] path@[k]@
                            == self.imports@[i - 1].1.1@[k]@,
                    decreases self.imports@[i - 1].1.1@.len() - j,
                {
                    path.push(self.imports[i - 1].1.1[j].clone());
                    j += 1;
                }
                proof {
                    assert(Seq::new(path@.len(), |k: int| path@[k]@) =~= Seq::new(
                        self.imports@[i - 1].1.1@.len(),
                        |k: int| self.imports@[i - 1].1.1@[k]@,
                    ));
                }
                return Some((module_name, path));
            }
            i -= 1;
        }
        proof {
            assert(tv.take(0) =~= ImportsV::empty());
        }
        None
    }
}

/// A whitespace character, as the directive grammar accepts it.
pub open spec fn is_space(c: char) -> bool {
    c == ' ' || c == '\t' || c == '\n' || c == '\r' || c == '\u{000B}' || c == '\u{000C}'
}

/// The first position at or after `i` that does not hold whitespace.
pub open spec fn skip_spaces(s: Seq<char>, i: int) -> int
    decreases s.len() - i,
        when 0 <= i <= s.len()
{
    if i >= s.len() || !is_space(s[i]) {
        i
    } else {
        skip_spaces(s, i + 1)
    }
}

/// The position before `j` after dropping trailing whitespace.
pub open spec fn trim_upto(s: Seq<char>, j: int) -> int
    decreases j,
        when 0 <= j <= s.len()
{
    if j == 0 || !is_space(s[j - 1]) {
        j
    } else {
        trim_upto(s, j - 1)
    }
}

/// Do the given characters stand at position `i`?
pub open spec fn lit_at(s: Seq<char>, i: int, lit: Seq<char>) -> bool {
    0 <= i && i + lit.len() <= s.len() && s.subrange(i, i + lit.len()) == lit
}

/// The opening tag of a reference directive.
pub open spec fn ref_open() -> Seq<char> {
    seq!['<', 'r', 'e', 'f', 'e', 'r', 'e', 'n', 'c', 'e']
}

/// The `path` attribute name.
pub open spec fn attr_path() -> Seq<char> {
    seq!['p', 'a', 't', 'h']
}

/// The `types` attribute name.
pub open spec fn attr_types() -> Seq<char> {
    seq!['t', 'y', 'p', 'e', 's']
}

/// The directive in a line comment, if the text is one: whether it is a
/// `types` directive, and the quoted value. The text is the comment after
/// its opening `//`: a further `/`, then `<reference`, the attribute, `=`
/// and a quoted value, closed by `/>`; whitespace may stand between the
/// parts and after the closing, and either quote is accepted.
pub open spec fn ts_directive(text: Seq<char>) -> Option<(bool, Seq<char>)> {
    if text.len() == 0 || text[0] != '/' {
        None
    } else {
        let i1 = skip_spaces(text, 1);
        if !lit_at(text, i1, ref_open()) {
            None
        } else {
            let i2 = skip_spaces(text, i1 + 10);
            if lit_at(text, i2, attr_path()) {
                directive_tail(text, skip_spaces(text, i2 + 4), false)
            } else if lit_at(text, i2, attr_types()) {
                directive_tail(text, skip_spaces(text, i2 + 5), true)
            } else {
                None
            }
        }
    }
}

/// The rest of a directive after the attribute name: `=`, a quote, the
/// value, a quote, then `/>` with optional whitespace around the close.
pub open spec fn directive_tail(text: Seq<char>, i4: int, is_types: bool) -> Option<
    (bool, Seq<char>),
>
    recommends
        0 <= i4 <= text.len(),
{
    if i4 >= text.len() || text[i4] != '=' {
        None
    } else {
        let i5 = skip_spaces(text, i4 + 1);
        if i5 >= text.len() || !(text[i5] == '"' || text[i5] == '\'') {
            None
        } else {
            let vstart = i5 + 1;
            let e = trim_upto(text, text.len() as int);
            if e < 2 || !lit_at(text, e - 2, seq!['/', '>']) {
                None
            } else {
                let q = trim_upto(text, e - 2);
                if q < 1 || !(text[q - 1] == '"' || text[q - 1] == '\'') || q - 1 <= vstart {
                    None
                } else {
                    Some((is_types, text.subrange(vstart, q - 1)))
                }
            }
        }
    }
}

/// A whitespace character, executably.
fn is_space_exec(c: char) -> (r: bool)
    ensures
        r == is_space(c),
{
    c == ' ' || c == '\t' || c == '\n' || c == '\r' || c == '\u{000B}' || c == '\u{000C}'
}

/// The first non-whitespace position at or after `i`, executably.
fn skip_spaces_exec(s: &String, i: usize, n: usize) -> (r: usize)
    requires
        i <= n,
        n == s@.len(),
    ensures
        r as int == skip_spaces(s@, i as int),
        i <= r <= n,
    decreases n - i,
{
    if i >= n {
        i
    } else {
        let c = s.as_str().get_char(i);
        if is_space_exec(c) {
            skip_spaces_exec(s, i + 1, n)
        } else {
            i
        }
    }
}

/// The position before `j` after dropping trailing whitespace, executably.
fn trim_upto_exec(s: &String, j: usize, n: usize) -> (r: usize)
    requires
        j <= n,
        n == s@.len(),
    ensures
        r as int == trim_upto(s@, j as int),
        r <= j,
    decreases j,
{
    if j == 0 {
        0
    } else {
        let c = s.as_str().get_char(j - 1);
        if is_space_exec(c) {
            trim_upto_exec(s, j - 1, n)
        } else {
            j
        }
    }
}

/// Do the given characters stand at position `at`, executably?
fn lit_at_exec(s: &String, n: usize, at: usize, lit: &Vec<char>) -> (r: bool)
    requires
        n == s@.len(),
    ensures
        r == lit_at(s@, at as int, lit@),
{
    if at > n || n - at < lit.len() {
        return false;
    }
    let mut j: usize = 0;
    while j < lit.len()
        invariant
            at + lit@.len() <= n,
            n == s@.len(),
            j <= lit@.len(),
            forall|k: int| 0 <= k < j ==> s@[at + k] == #[trigger] lit@[k],
        decreases lit@.len() - j,
    {
        let c = s.as_str().get_char(at + j);
        if c != lit[j] {
            proof {
                assert(s@.subrange(at as int, at + lit@.len())[j as int] != lit@[j as int]);
            }
            return false;
        }
        j += 1;
    }
    proof {
        assert(s@.subrange(at as int, at + lit@.len()) =~= lit@);
    }
    true
}

/// Parse a line comment as a triple-slash reference directive.
pub fn parse_ts_directive(text: &String) -> (r: Option<(bool, String)>)
    ensures
        (match r {
            Some(p) => ts_directive(text@) == Some((p.0, p.1@)),
            None => ts_directive(text@) is None,
        }),
{
    let open_tag: Vec<char> = vec!['<', 'r', 'e', 'f', 'e', 'r', 'e', 'n', 'c', 'e'];
    let word_path: Vec<char> = vec!['p', 'a', 't', 'h'];
    let word_types: Vec<char> = vec!['t', 'y', 'p', 'e', 's'];
    let close_tag: Vec<char> = vec!['/', '>'];
    proof {
        assert(open_tag@ =~= ref_open());
        assert(word_path@ =~= attr_path());
        assert(word_types@ =~= attr_types());
        assert(close_tag@ =~= seq!['/', '>']);
    }
    let n = s_len(text);
    if n == 0 {
        return None;
    }
    let c0 = text.as_str().get_char(0);
    if c0 != '/' {
        return None;
    }
    let i1 = skip_spaces_exec(text, 1, n);
    if !lit_at_exec(text, n, i1, &open_tag) {
        return None;
    }
    let i2 = skip_spaces_exec(text, i1 + 10, n);
    if lit_at_exec(text, n, i2, &word_path) {
        directive_tail_exec(text, n, skip_spaces_exec(text, i2 + 4, n), false)
    } else if lit_at_exec(text, n, i2, &word_types) {
        directive_tail_exec(text, n, skip_spaces_exec(text, i2 + 5, n), true)
    } else {
        None
    }
}

/// Parse the rest of a directive after the attribute name, executably.
fn directive_tail_exec(text: &String, n: usize, i4: usize, is_types: bool) -> (r: Option<
    (bool, String),
>)
    requires
        i4 <= n,
        n == text@.len(),
    ensures
        (match r {
            Some(p) => directive_tail(text@, i4 as int, is_types) == Some((p.0, p.1@)) && p.0
                == is_types,
            None => directive_tail(text@, i4 as int, is_types) is None,
        }),
{
    let close_tag: Vec<char> = vec!['/', '>'];
    proof {
        assert(close_tag@ =~= seq!['/', '>']);
    }
    if i4 >= n {
        return None;
    }
    let c4 = text.as_str().get_char(i4);
    if c4 != '=' {
        return None;
    }
    let i5 = skip_spaces_exec(text, i4 + 1, n);
    if i5 >= n {
        return None;
    }
    let c5 = text.as_str().get_char(i5);
    if !(c5 == '"' || c5 == '\'') {
        return None;
    }
    let vstart = i5 + 1;
    let e = trim_upto_exec(text, n, n);
    if e < 2 || !lit_at_exec(text, n, e - 2, &close_tag) {
        return None;
    }
    let q = trim_upto_exec(text, e - 2, n);
    if q < 1 {
        return None;
    }
    let cq = text.as_str().get_char(q - 1);
    if !(cq == '"' || cq == '\'') || q - 1 <= vstart {
        return None;
    }
    let value = text.as_str().substring_char(vstart, q - 1).to_owned();
    Some((is_types, value))
}

/// The character length of a string.
fn s_len(s: &String) -> (r: usize)
    ensures
        r == s@.len(),
{
    s.as_str().unicode_len()
}

/// The running state of the syntactic pass.
pub struct VisitV {
    pub refs: Seq<RefV>,
    pub imports: ImportsV,
    pub runtime: Option<(Seq<char>, Span)>,
    pub entry: bool,
    pub chunks: Seq<ConstV>,
}

/// The ESM reference of a static edge.
pub open spec fn esm_ref(source: Seq<char>, src: Seq<char>, is_ts: bool) -> RefV {
    RefV::Esm {
        source: source,
        request: PatternV::Constant(src),
        from_typescript: is_ts,
    }
}

/// The import-table rows a list of specifiers adds.
pub open spec fn table_add(ss: Seq<ImportSpecifier>, src: Seq<char>, t: ImportsV) -> ImportsV
    decreases ss,
{
    if ss.len() == 0 {
        t
    } else {
        let t1 = match ss.first() {
            ImportSpecifier::Named { local, imported, is_type_only } => {
                if is_type_only {
                    t
                } else {
                    t.push(
                        (
                            local@,
                            (
                                src,
                                seq![
                                    match imported {
                                        Some(n) => n@,
                                        None => local@,
                                    },
                                ],
                            ),
                        ),
                    )
                }
            },
            ImportSpecifier::Default { local } => t.push((local@, (src, seq!["default"@]))),
            ImportSpecifier::Namespace { local } => t.push(
                (local@, (src, Seq::empty())),
            ),
        };
        table_add(ss.drop_first(), src, t1)
    }
}

/// The chunk ids of an inline array: its string and number literal
/// elements, in order; everything else is skipped.
pub open spec fn chunk_ids(elems: Seq<Expr>) -> Seq<ConstV>
    decreases elems,
{
    if elems.len() == 0 {
        Seq::empty()
    } else {
        (match elems.first() {
            Expr::Lit(c) => match c {
                JsConst::Str(_) => seq![c@],
                JsConst::Num(_) => seq![c@],
                _ => Seq::empty(),
            },
            _ => Seq::empty(),
        }) + chunk_ids(elems.drop_first())
    }
}

/// Is this declarator the webpack runtime marker
/// `var __webpack_require__ = require("<literal>")`?
pub open spec fn runtime_marker(d: VarDeclarator) -> Option<(Seq<char>, Span)> {
    match d.name {
        Some(n) => if n@ == "__webpack_require__"@ {
            match d.init {
                Some(e) => match e {
                    Expr::Call { callee, args, span } => match *callee {
                        Callee::Expr(ce) => match *ce {
                            Expr::Ident(f) => if f@ == "require"@ && args.len() == 1 {
                                match args[0] {
                                    Expr::Lit(c) => match c {
                                        JsConst::Str(s) => Some((s@, span)),
                                        _ => None,
                                    },
                                    _ => None,
                                }
                            } else {
                                None
                            },
                            _ => None,
                        },
                        _ => None,
                    },
                    _ => None,
                },
                None => None,
            }
        } else {
            None
        },
        None => None,
    }
}

/// One declarator of the syntactic pass: record the runtime marker, or
/// walk the initializer.
pub open spec fn visit_declarator(d: VarDeclarator, st: VisitV) -> VisitV
    decreases d, 4int,
{
    match runtime_marker(d) {
        Some(m) => VisitV {
            runtime: Some(m),
            refs: st.refs,
            imports: st.imports,
            entry: st.entry,
            chunks: st.chunks,
        },
        None => match d.init {
            Some(e) => visit_expr(e, st),
            None => st,
        },
    }
}

/// The declarators of one statement, in order.
pub open spec fn visit_declarators(ds: Seq<VarDeclarator>, st: VisitV) -> VisitV
    decreases ds, 5int,
{
    if ds.len() == 0 {
        st
    } else {
        visit_declarators(ds.drop_first(), visit_declarator(ds.first(), st))
    }
}

/// One call shape: recognize the webpack entry and chunk signatures at
/// this node alone.
pub open spec fn visit_call(e: Expr, st: VisitV) -> VisitV {
    match e {
        Expr::Call { callee, args, span: _span } => match *callee {
            Callee::Expr(ce) => match spec_evaluate(st.imports, *ce) {
            StaticExprV::FreeVarPath(path) => {
                if path == seq!["__webpack_require__"@, "C"@] {
                    VisitV {
                        entry: true,
                        refs: st.refs,
                        imports: st.imports,
                        runtime: st.runtime,
                        chunks: st.chunks,
                    }
                } else if path == seq!["__webpack_require__"@, "X"@] && args.len() == 3 {
                    match args[1] {
                        Expr::Array { elems } => VisitV {
                            chunks: st.chunks + chunk_ids(elems@),
                            refs: st.refs,
                            imports: st.imports,
                            runtime: st.runtime,
                            entry: st.entry,
                        },
                        _ => st,
                    }
                } else {
                    st
                }
            },
            _ => st,
            },
            _ => st,
        },
        _ => st,
    }
}

/// One expression of the syntactic pass: recognize the signature at this
/// node, then walk the children.
pub open spec fn visit_expr(e: Expr, st: VisitV) -> VisitV
    decreases e, 2int,
{
    visit_children(e, visit_call(e, st))
}

/// The children of one expression, in source order.
pub open spec fn visit_children(e: Expr, st: VisitV) -> VisitV
    decreases e, 1int,
{
    match e {
        Expr::Lit(_) => st,
        Expr::Ident(_) => st,
        Expr::Bin { left, right } => visit_expr(*right, visit_expr(*left, st)),
        Expr::Member { obj, prop } => visit_prop(prop, visit_expr(*obj, st)),
        Expr::Call { callee, args, span: _span } => {
            let st1 = match *callee {
                Callee::Expr(ce) => visit_expr(*ce, st),
                Callee::Import => st,
            };
            visit_expr_list(args@, st1)
        },
        Expr::Array { elems } => visit_expr_list(elems@, st),
        Expr::Cond { test, cons, alt } => visit_expr(
            *alt,
            visit_expr(*cons, visit_expr(*test, st)),
        ),
    }
}

/// A member property of the syntactic pass.
pub open spec fn visit_prop(p: MemberProp, st: VisitV) -> VisitV
    decreases p, 2int,
{
    match p {
        MemberProp::Ident(_) => st,
        MemberProp::Computed(e) => visit_expr(*e, st),
    }
}

/// The expressions of a list, in order.
pub open spec fn visit_expr_list(es: Seq<Expr>, st: VisitV) -> VisitV
    decreases es, 3int,
{
    if es.len() == 0 {
        st
    } else {
        visit_expr_list(es.drop_first(), visit_expr(es.first(), st))
    }
}

/// One statement of the syntactic pass; function bodies are walked too.
pub open spec fn visit_stmt(s: Stmt, st: VisitV) -> VisitV
    decreases s, 4int,
{
    match s {
        Stmt::VarDecl(ds) => visit_declarators(ds@, st),
        Stmt::Expr(e) => visit_expr(e, st),
        Stmt::FnDecl { name: _name, params: _params, body } => visit_stmts(body@, st),
    }
}

/// The statements of a list, in order.
pub open spec fn visit_stmts(ss: Seq<Stmt>, st: VisitV) -> VisitV
    decreases ss, 5int,
{
    if ss.len() == 0 {
        st
    } else {
        visit_stmts(ss.drop_first(), visit_stmt(ss.first(), st))
    }
}

/// One top-level item of the syntactic pass.
pub open spec fn visit_item(it: ModuleItem, source: Seq<char>, is_ts: bool, st: VisitV)
    -> VisitV {
    match it {
        ModuleItem::Import(d) => VisitV {
            refs: st.refs.push(esm_ref(source, d.src@, is_ts)),
            imports: if d.type_only {
                st.imports
            } else {
                table_add(d.specifiers@, d.src@, st.imports)
            },
            runtime: st.runtime,
            entry: st.entry,
            chunks: st.chunks,
        },
        ModuleItem::ExportNamed { src } => match src {
            Some(s) => VisitV {
                refs: st.refs.push(esm_ref(source, s@, is_ts)),
                imports: st.imports,
                runtime: st.runtime,
                entry: st.entry,
                chunks: st.chunks,
            },
            None => st,
        },
        ModuleItem::ExportAll { src } => VisitV {
            refs: st.refs.push(esm_ref(source, src@, is_ts)),
            imports: st.imports,
            runtime: st.runtime,
            entry: st.entry,
            chunks: st.chunks,
        },
        ModuleItem::Stmt(s) => visit_stmt(s, st),
    }
}

/// The whole syntactic pass over the items.
pub open spec fn visit_items(its: Seq<ModuleItem>, source: Seq<char>, is_ts: bool, st: VisitV)
    -> VisitV
    decreases its,
{
    if its.len() == 0 {
        st
    } else {
        visit_items(its.drop_first(), source, is_ts, visit_item(its.first(), source, is_ts, st))
    }
}

/// The starting state of the syntactic pass.
pub open spec fn visit_start() -> VisitV {
    VisitV {
        refs: Seq::empty(),
        imports: Seq::empty(),
        runtime: None,
        entry: false,
        chunks: Seq::empty(),
    }
}

/// The running state of the executable syntactic pass.
pub struct Visitor {
    pub references: Vec<AssetReference>,
    pub analyser: StaticAnalyser,
    pub webpack_runtime: Option<(String, Span)>,
    pub webpack_entry: bool,
    pub webpack_chunks: Vec<JsConst>,
}

impl View for Visitor {
    type V = VisitV;

    open spec fn view(&self) -> VisitV {
        VisitV {
            refs: ref_views(self.references@),
            imports: imports_view(self.analyser.imports@),
            runtime: match self.webpack_runtime {
                Some(m) => Some((m.0@, m.1)),
                None => None,
            },
            entry: self.webpack_entry,
            chunks: Seq::new(self.webpack_chunks@.len(), |i: int| self.webpack_chunks@[i]@),
        }
    }
}

/// The webpack runtime marker of a declarator, executably.
fn marker_exec(d: &VarDeclarator) -> (r: Option<(String, Span)>)
    ensures
        (match r {
            Some(m) => runtime_marker(*d) == Some((m.0@, m.1)),
            None => runtime_marker(*d) is None,
        }),
{
    proof {
        assert(*d == (VarDeclarator { name: d.name, init: d.init }));
        reveal_strlit("__webpack_require__");
        reveal_strlit("require");
    }
    match &d.name {
        Some(n) => if str_is(n, "__webpack_require__") {
            match &d.init {
                Some(e) => match e {
                    Expr::Call { callee, args, span } => match &**callee {
                        Callee::Expr(ce) => match &**ce {
                            Expr::Ident(f) => if str_is(f, "require") && args.len() == 1 {
                                match &args[0] {
                                    Expr::Lit(c) => match c {
                                        JsConst::Str(s) => Some((s.clone(), *span)),
                                        _ => None,
                                    },
                                    _ => None,
                                }
                            } else {
                                None
                            },
                            _ => None,
                        },
                        _ => None,
                    },
                    _ => None,
                },
                None => None,
            }
        } else {
            None
        },
        None => None,
    }
}

/// One declarator of the syntactic pass, executably.
fn visit_declarator_exec(d: &VarDeclarator, st: Visitor) -> (r: Visitor)
    ensures
        r@ == visit_declarator(*d, st@),
    decreases d, 4int, 0int,
{
    proof {
        assert(*d == (VarDeclarator { name: d.name, init: d.init }));
    }
    match marker_exec(d) {
        Some(m) => {
            let mut st = st;
            st.webpack_runtime = Some(m);
            st
        },
        None => match &d.init {
            Some(e) => {
                proof {
                    assert(d.init matches Some(e0) && e0 == *e);
                }
                visit_expr_exec(e, st)
            },
            None => st,
        },
    }
}

/// The declarators of one statement, executably, from index `i` on.
fn visit_declarators_exec(ds: &Vec<VarDeclarator>, i: usize, st: Visitor) -> (r: Visitor)
    requires
        i <= ds@.len(),
    ensures
        r@ == visit_declarators(ds@.skip(i as int), st@),
    decreases ds, 5int, ds@.len() - i,
{
    if i == ds.len() {
        proof {
            assert(ds@.skip(i as int) =~= Seq::<VarDeclarator>::empty());
        }
        st
    } else {
        proof {
            assert(decreases_to!(ds => ds@));
            assert(decreases_to!(ds@ => ds@[i as int]));
            assert(ds@.skip(i as int).first() == ds@[i as int]);
            assert(ds@.skip(i as int).drop_first() =~= ds@.skip(i as int + 1));
        }
        let st1 = visit_declarator_exec(&ds[i], st);
        visit_declarators_exec(ds, i + 1, st1)
    }
}

/// One call expression of the syntactic pass, executably.
fn visit_call_exec(e: &Expr, st: Visitor) -> (r: Visitor)
    ensures
        r@ == visit_call(*e, st@),
{
    proof {
        reveal_strlit("__webpack_require__");
        reveal_strlit("C");
        reveal_strlit("X");
    }
    match e {
        Expr::Call { callee, args, span: _span } => {
            proof {
                assert(*e matches Expr::Call { callee: cb, args: ab, span: sb } && cb
                    == *callee && ab == *args && sb == *_span);
            }
            match &**callee {
                Callee::Expr(ce) => {
                    proof {
                        assert(**callee == Callee::Expr(*ce));
                    }
                    match st.analyser.evaluate_expr(ce) {
                        StaticExpr::FreeVarPath(path) => {
                            let ghost pathv = Seq::new(path@.len(), |i: int| path@[i]@);
                            let is_wr = path.len() == 2 && str_is(
                                &path[0],
                                "__webpack_require__",
                            );
                            if is_wr && str_is(&path[1], "C") {
                                proof {
                                    assert(pathv =~= seq![
                                        "__webpack_require__"@,
                                        "C"@,
                                    ]);
                                }
                                let mut st = st;
                                st.webpack_entry = true;
                                st
                            } else if is_wr && str_is(&path[1], "X") && args.len() == 3 {
                                proof {
                                    assert(pathv =~= seq![
                                        "__webpack_require__"@,
                                        "X"@,
                                    ]);
                                    assert(pathv != seq!["__webpack_require__"@, "C"@]);
                                }
                                match &args[1] {
                                    Expr::Array { elems } => {
                                        proof {
                                            assert(args@[1] matches Expr::Array {
                                                elems: el,
                                            } && el == *elems);
                                            assert(elems@.skip(0) =~= elems@);
                                        }
                                        let ids = chunk_ids_exec(elems, 0);
                                        let ghost ids0 = ids@;
                                        let mut chunks = st.webpack_chunks;
                                        let ghost chunks0 = chunks@;
                                        let mut k: usize = 0;
                                        while k < ids.len()
                                            invariant
                                                k <= ids@.len(),
                                                ids@ == ids0,
                                                chunks@.len() == chunks0.len() + k,
                                                forall|i: int| 0 <= i < chunks0.len()
                                                    ==> #[trigger] chunks@[i]
                                                    == chunks0[i],
                                                forall|i: int| 0 <= i < k
                                                    ==> (#[trigger] chunks@[chunks0.len()
                                                    + i])@ == ids0[i]@,
                                            decreases ids@.len() - k,
                                        {
                                            chunks.push(dup_const(&ids[k]));
                                            k += 1;
                                        }
                                        let out = Visitor {
                                            references: st.references,
                                            analyser: st.analyser,
                                            webpack_runtime: st.webpack_runtime,
                                            webpack_entry: st.webpack_entry,
                                            webpack_chunks: chunks,
                                        };
                                        proof {
                                            let lhs = Seq::new(
                                                out.webpack_chunks@.len(),
                                                |i: int| out.webpack_chunks@[i]@,
                                            );
                                            let c0v = Seq::new(
                                                chunks0.len(),
                                                |i: int| chunks0[i]@,
                                            );
                                            let idsv = Seq::new(
                                                ids0.len(),
                                                |i: int| ids0[i]@,
                                            );
                                            assert(idsv == chunk_ids(elems@));
                                            assert forall|i: int| 0 <= i < lhs.len() implies
                                                lhs[i] == (c0v + idsv)[i] by {
                                                if i < chunks0.len() {
                                                    assert(chunks@[i] == chunks0[i]);
                                                } else {
                                                    assert((chunks@[chunks0.len() + (i
                                                        - chunks0.len())])@ == ids0[i
                                                        - chunks0.len()]@);
                                                }
                                            }
                                            assert(lhs =~= c0v + idsv);
                                        }
                                        out
                                    },
                                    _ => st,
                                }
                            } else {
                                proof {
                                    if pathv == seq!["__webpack_require__"@, "C"@] {
                                        assert(pathv.len() == seq![
                                            "__webpack_require__"@,
                                            "C"@,
                                        ].len());
                                        assert(pathv.len() == 2);
                                        assert(path@.len() == 2);
                                        assert(pathv[0] == "__webpack_require__"@);
                                        assert(pathv[1] == "C"@);
                                    }
                                    if pathv == seq!["__webpack_require__"@, "X"@] {
                                        assert(pathv.len() == seq![
                                            "__webpack_require__"@,
                                            "X"@,
                                        ].len());
                                        assert(pathv.len() == 2);
                                        assert(path@.len() == 2);
                                        assert(pathv[0] == "__webpack_require__"@);
                                        assert(pathv[1] == "X"@);
                                    }
                                }
                                st
                            }
                        },
                        _ => st,
                    }
                },
                _ => st,
            }
        },
        _ => st,
    }
}

/// The literal chunk ids of an array literal, from index `i` on.
fn chunk_ids_exec(elems: &Vec<Expr>, i: usize) -> (r: Vec<JsConst>)
    requires
        i <= elems@.len(),
    ensures
        Seq::new(r@.len(), |k: int| r@[k]@) == chunk_ids(elems@.skip(i as int)),
    decreases elems@.len() - i,
{
    if i == elems.len() {
        proof {
            assert(elems@.skip(i as int) =~= Seq::<Expr>::empty());
            assert(Seq::new(0, |k: int| JsConst::Null@) =~= Seq::<ConstV>::empty());
        }
        Vec::new()
    } else {
        proof {
            assert(elems@.skip(i as int).first() == elems@[i as int]);
            assert(elems@.skip(i as int).drop_first() =~= elems@.skip(i as int + 1));
        }
        let mut rest = chunk_ids_exec(elems, i + 1);
        let ghost r0 = rest@;
        let keep: bool = match &elems[i] {
            Expr::Lit(c) => {
                proof {
                    assert(elems@[i as int] matches Expr::Lit(c0) && c0 == *c);
                }
                match c {
                    JsConst::Str(_) => true,
                    JsConst::Num(_) => true,
                    _ => false,
                }
            },
            _ => false,
        };
        if keep {
            match &elems[i] {
                Expr::Lit(c) => {
                    proof {
                        assert(elems@[i as int] matches Expr::Lit(c0) && c0 == *c);
                    }
                    rest.insert(0, dup_const(c));
                    proof {
                        assert(Seq::new(rest@.len(), |k: int| rest@[k]@) =~= seq![c@]
                            + Seq::new(r0.len(), |k: int| r0[k]@));
                    }
                    rest
                },
                _ => {
                    proof {
                        assert(false);
                    }
                    rest
                },
            }
        } else {
            proof {
                assert(Seq::new(rest@.len(), |k: int| rest@[k]@) =~= Seq::<ConstV>::empty()
                    + Seq::new(r0.len(), |k: int| r0[k]@));
            }
            rest
        }
    }
}

/// One statement of the syntactic pass, executably; function bodies are
/// walked too.
fn visit_stmt_exec(s: &Stmt, st: Visitor) -> (r: Visitor)
    ensures
        r@ == visit_stmt(*s, st@),
    decreases s, 4int, 0int,
{
    match s {
        Stmt::VarDecl(ds) => {
            proof {
                assert(*s matches Stmt::VarDecl(d0) && d0 == *ds);
                assert(ds@.skip(0) =~= ds@);
            }
            visit_declarators_exec(ds, 0, st)
        },
        Stmt::Expr(e) => {
            proof {
                assert(*s matches Stmt::Expr(e0) && e0 == *e);
            }
            visit_expr_exec(e, st)
        },
        Stmt::FnDecl { name: _name, params: _params, body } => {
            proof {
                assert(*s matches Stmt::FnDecl { name: n0, params: p0, body: b0 } && b0
                    == *body);
                assert(body@.skip(0) =~= body@);
            }
            visit_stmts_exec(body, 0, st)
        },
    }
}

/// The statements from index `i` on, executably.
fn visit_stmts_exec(ss: &Vec<Stmt>, i: usize, st: Visitor) -> (r: Visitor)
    requires
        i <= ss@.len(),
    ensures
        r@ == visit_stmts(ss@.skip(i as int), st@),
    decreases ss, 5int, ss@.len() - i,
{
    if i == ss.len() {
        proof {
            assert(ss@.skip(i as int) =~= Seq::<Stmt>::empty());
        }
        st
    } else {
        proof {
            assert(decreases_to!(ss => ss@));
            assert(decreases_to!(ss@ => ss@[i as int]));
            assert(ss@.skip(i as int).first() == ss@[i as int]);
            assert(ss@.skip(i as int).drop_first() =~= ss@.skip(i as int + 1));
        }
        let st1 = visit_stmt_exec(&ss[i], st);
        visit_stmts_exec(ss, i + 1, st1)
    }
}

/// One expression of the syntactic pass, executably: the node itself,
/// then its children.
fn visit_expr_exec(e: &Expr, st: Visitor) -> (r: Visitor)
    ensures
        r@ == visit_expr(*e, st@),
    decreases e, 2int, 0int,
{
    let st1 = visit_call_exec(e, st);
    visit_children_exec(e, st1)
}

/// The children of one expression, executably.
fn visit_children_exec(e: &Expr, st: Visitor) -> (r: Visitor)
    ensures
        r@ == visit_children(*e, st@),
    decreases e, 1int, 0int,
{
    match e {
        Expr::Lit(_) => st,
        Expr::Ident(_) => st,
        Expr::Bin { left, right } => {
            proof {
                assert(*e == Expr::Bin { left: *left, right: *right });
            }
            let st1 = visit_expr_exec(left, st);
            visit_expr_exec(right, st1)
        },
        Expr::Member { obj, prop } => {
            proof {
                assert(*e matches Expr::Member { obj: o0, prop: p0 } && o0 == *obj && p0
                    == *prop);
            }
            let st1 = visit_expr_exec(obj, st);
            visit_prop_exec(prop, st1)
        },
        Expr::Call { callee, args, span } => {
            proof {
                assert(*e matches Expr::Call { callee: cb, args: ab, span: sb } && cb
                    == *callee && ab == *args && sb == *span);
            }
            let st1: Visitor = match &**callee {
                Callee::Expr(ce) => {
                    proof {
                        assert(**callee == Callee::Expr(*ce));
                    }
                    visit_expr_exec(ce, st)
                },
                Callee::Import => {
                    proof {
                        assert(**callee == Callee::Import);
                    }
                    st
                },
            };
            proof {
                assert(args@.skip(0) =~= args@);
            }
            visit_expr_list_exec(args, 0, st1)
        },
        Expr::Array { elems } => {
            proof {
                assert(*e matches Expr::Array { elems: el } && el == *elems);
                assert(elems@.skip(0) =~= elems@);
            }
            visit_expr_list_exec(elems, 0, st)
        },
        Expr::Cond { test, cons, alt } => {
            proof {
                assert(*e == Expr::Cond { test: *test, cons: *cons, alt: *alt });
            }
            let st1 = visit_expr_exec(test, st);
            let st2 = visit_expr_exec(cons, st1);
            visit_expr_exec(alt, st2)
        },
    }
}

/// A member property of the syntactic pass, executably.
fn visit_prop_exec(p: &MemberProp, st: Visitor) -> (r: Visitor)
    ensures
        r@ == visit_prop(*p, st@),
    decreases p, 2int, 0int,
{
    match p {
        MemberProp::Ident(_) => st,
        MemberProp::Computed(e) => {
            proof {
                assert(*p matches MemberProp::Computed(b) && b == *e);
            }
            visit_expr_exec(e, st)
        },
    }
}

/// The expressions from index `i` on, executably.
fn visit_expr_list_exec(es: &Vec<Expr>, i: usize, st: Visitor) -> (r: Visitor)
    requires
        i <= es@.len(),
    ensures
        r@ == visit_expr_list(es@.skip(i as int), st@),
    decreases es, 3int, es@.len() - i,
{
    if i == es.len() {
        proof {
            assert(es@.skip(i as int) =~= Seq::<Expr>::empty());
        }
        st
    } else {
        proof {
            assert(decreases_to!(es => es@));
            assert(decreases_to!(es@ => es@[i as int]));
            assert(es@.skip(i as int).first() == es@[i as int]);
            assert(es@.skip(i as int).drop_first() =~= es@.skip(i as int + 1));
        }
        let st1 = visit_expr_exec(&es[i], st);
        visit_expr_list_exec(es, i + 1, st1)
    }
}

/// Push one reference, and relate the views.
fn push_ref(st: Visitor, r: AssetReference) -> (out: Visitor)
    ensures
        out@ == (VisitV {
            refs: st@.refs.push(r@),
            imports: st@.imports,
            runtime: st@.runtime,
            entry: st@.entry,
            chunks: st@.chunks,
        }),
{
    proof {
        lemma_ref_views_push(st.references@, r);
    }
    let mut st = st;
    st.references.push(r);
    st
}

/// The import-table rows of the specifiers from index `i` on, executably.
fn table_add_exec(ss: &Vec<ImportSpecifier>, i: usize, src: &String, st: Visitor) -> (r:
    Visitor)
    requires
        i <= ss@.len(),
    ensures
        r@ == (VisitV {
            imports: table_add(ss@.skip(i as int), src@, st@.imports),
            refs: st@.refs,
            runtime: st@.runtime,
            entry: st@.entry,
            chunks: st@.chunks,
        }),
    decreases ss@.len() - i,
{
    if i == ss.len() {
        proof {
            assert(ss@.skip(i as int) =~= Seq::<ImportSpecifier>::empty());
            assert(st@ == (VisitV {
                imports: table_add(ss@.skip(i as int), src@, st@.imports),
                refs: st@.refs,
                runtime: st@.runtime,
                entry: st@.entry,
                chunks: st@.chunks,
            }));
        }
        st
    } else {
        proof {
            assert(ss@.skip(i as int).first() == ss@[i as int]);
            assert(ss@.skip(i as int).drop_first() =~= ss@.skip(i as int + 1));
        }
        let ghost t0 = st@.imports;
        let st1: Visitor = match &ss[i] {
            ImportSpecifier::Named { local, imported, is_type_only } => {
                proof {
                    assert(ss@[i as int] matches ImportSpecifier::Named {
                        local: l0,
                        imported: i0,
                        is_type_only: t0b,
                    } && l0 == *local && i0 == *imported && t0b == *is_type_only);
                }
                if *is_type_only {
                    st
                } else {
                    let picked = crate::builder::picked_name_pub(imported, local);
                    let mut path: Vec<String> = Vec::new();
                    path.push(picked);
                    let mut st = st;
                    st.analyser.imports.push((local.clone(), (src.clone(), path)));
                    proof {
                        assert(imports_view(st.analyser.imports@) =~~= t0.push(
                            (
                                local@,
                                (
                                    src@,
                                    seq![
                                        match *imported {
                                            Some(n) => n@,
                                            None => local@,
                                        },
                                    ],
                                ),
                            ),
                        ));
                    }
                    st
                }
            },
            ImportSpecifier::Default { local } => {
                proof {
                    assert(ss@[i as int] matches ImportSpecifier::Default { local: l0 } && l0
                        == *local);
                    reveal_strlit("default");
                }
                let mut path: Vec<String> = Vec::new();
                path.push(String::from_str("default"));
                let mut st = st;
                st.analyser.imports.push((local.clone(), (src.clone(), path)));
                proof {
                    assert(imports_view(st.analyser.imports@) =~~= t0.push(
                        (local@, (src@, seq!["default"@])),
                    ));
                }
                st
            },
            ImportSpecifier::Namespace { local } => {
                proof {
                    assert(ss@[i as int] matches ImportSpecifier::Namespace { local: l0 }
                        && l0 == *local);
                }
                let path: Vec<String> = Vec::new();
                let mut st = st;
                st.analyser.imports.push((local.clone(), (src.clone(), path)));
                proof {
                    assert(imports_view(st.analyser.imports@) =~~= t0.push(
                        (local@, (src@, Seq::<Seq<char>>::empty())),
                    ));
                }
                st
            },
        };
        table_add_exec(ss, i + 1, src, st1)
    }
}

/// One top-level item of the syntactic pass, executably.
fn visit_item_exec(it: &ModuleItem, source: &String, is_ts: bool, st: Visitor) -> (r: Visitor)
    ensures
        r@ == visit_item(*it, source@, is_ts, st@),
{
    match it {
        ModuleItem::Import(d) => {
            proof {
                assert(*it matches ModuleItem::Import(d0) && d0 == *d);
                assert(*d == (ImportDecl {
                    src: d.src,
                    type_only: d.type_only,
                    specifiers: d.specifiers,
                }));
            }
            let st1 = push_ref(
                st,
                AssetReference::Esm(
                    EsmAssetReference {
                        source: source.clone(),
                        request: Request { request: Pattern::Constant(d.src.clone()) },
                        from_typescript: is_ts,
                    },
                ),
            );
            if d.type_only {
                st1
            } else {
                proof {
                    assert(d.specifiers@.skip(0) =~= d.specifiers@);
                }
                table_add_exec(&d.specifiers, 0, &d.src, st1)
            }
        },
        ModuleItem::ExportNamed { src } => match src {
            Some(s) => {
                proof {
                    assert(*it matches ModuleItem::ExportNamed { src: s0 } && s0 == *src);
                    assert(*src matches Some(s1) && s1 == *s);
                }
                push_ref(
                    st,
                    AssetReference::Esm(
                        EsmAssetReference {
                            source: source.clone(),
                            request: Request { request: Pattern::Constant(s.clone()) },
                            from_typescript: is_ts,
                        },
                    ),
                )
            },
            None => {
                proof {
                    assert(*it matches ModuleItem::ExportNamed { src: s0 } && s0 == *src);
                }
                st
            },
        },
        ModuleItem::ExportAll { src } => {
            proof {
                assert(*it matches ModuleItem::ExportAll { src: s0 } && s0 == *src);
            }
            push_ref(
                st,
                AssetReference::Esm(
                    EsmAssetReference {
                        source: source.clone(),
                        request: Request { request: Pattern::Constant(src.clone()) },
                        from_typescript: is_ts,
                    },
                ),
            )
        },
        ModuleItem::Stmt(s) => {
            proof {
                assert(*it matches ModuleItem::Stmt(s0) && s0 == *s);
            }
            visit_stmt_exec(s, st)
        },
    }
}

/// The syntactic pass over the items from index `i` on, executably.
fn visit_items_exec(its: &Vec<ModuleItem>, i: usize, source: &String, is_ts: bool,
    st: Visitor) -> (r: Visitor)
    requires
        i <= its@.len(),
    ensures
        r@ == visit_items(its@.skip(i as int), source@, is_ts, st@),
    decreases its@.len() - i,
{
    if i == its.len() {
        proof {
            assert(its@.skip(i as int) =~= Seq::<ModuleItem>::empty());
        }
        st
    } else {
        proof {
            assert(its@.skip(i as int).first() == its@[i as int]);
            assert(its@.skip(i as int).drop_first() =~= its@.skip(i as int + 1));
        }
        let st1 = visit_item_exec(&its[i], source, is_ts, st);
        visit_items_exec(its, i + 1, source, is_ts, st1)
    }
}

/// The linked values of the raw arguments.
pub open spec fn link_args(g: VarGraphV, h: HostV, args: Seq<JsValueV>) -> Seq<JsValueV>
    decreases args,
{
    if args.len() == 0 {
        Seq::empty()
    } else {
        seq![crate::link::link_value(g, h, args.first())] + link_args(g, h, args.drop_first())
    }
}

/// `link_args` maps `link_value` elementwise.
pub proof fn lemma_link_args(g: VarGraphV, h: HostV, args: Seq<JsValueV>)
    ensures
        link_args(g, h, args).len() == args.len(),
        forall|i: int| 0 <= i < args.len() ==> link_args(g, h, args)[i]
            == crate::link::link_value(g, h, #[trigger] args[i]),
    decreases args.len(),
{
    if args.len() > 0 {
        lemma_link_args(g, h, args.drop_first());
        assert forall|i: int| 0 <= i < args.len() implies link_args(g, h, args)[i]
            == crate::link::link_value(g, h, #[trigger] args[i]) by {
            if i > 0 {
                assert(link_args(g, h, args)[i] == link_args(g, h, args.drop_first())[i - 1]);
                assert(args.drop_first()[i - 1] == args[i]);
            }
        }
    }
}

/// The references and diagnostics of one call site, given its linked
/// callee. Joined callees contribute per alternative, in order.
pub open spec fn spec_handle_call(
    g: VarGraphV,
    h: HostV,
    source: Seq<char>,
    is_ts: bool,
    fv: JsValueV,
    args: Seq<JsValueV>,
    span: Span,
) -> (Seq<RefV>, Seq<Diagnostic>)
    decreases fv, 1int,
{
    match fv {
        JsValueV::Alternatives(alts) => spec_handle_alts(g, h, source, is_ts, alts, args, span),
        JsValueV::WellKnownFunction(wkf) => match wkf {
            WellKnownFunctionKind::Import => spec_dynamic_request(
                g,
                h,
                source,
                is_ts,
                args,
                span,
                DiagnosticCode::DynamicImport,
                true,
            ),
            WellKnownFunctionKind::Require => spec_dynamic_request(
                g,
                h,
                source,
                is_ts,
                args,
                span,
                DiagnosticCode::Require,
                false,
            ),
            WellKnownFunctionKind::RequireResolve => spec_dynamic_request(
                g,
                h,
                source,
                is_ts,
                args,
                span,
                DiagnosticCode::RequireResolve,
                false,
            ),
            WellKnownFunctionKind::FsReadMethod(_name) => {
                let la = link_args(g, h, args);
                if la.len() >= 1 {
                    let pat = to_pattern(la[0]);
                    (
                        seq![RefV::Source { source: source, path: pat }],
                        if has_constant_parts(pat) {
                            Seq::empty()
                        } else {
                            seq![
                                Diagnostic {
                                    severity: Severity::Lint,
                                    span: span,
                                    code: DiagnosticCode::FsMethod,
                                },
                            ]
                        },
                    )
                } else {
                    (
                        Seq::empty(),
                        seq![
                            Diagnostic {
                                severity: Severity::Error,
                                span: span,
                                code: DiagnosticCode::FsMethod,
                            },
                        ],
                    )
                }
            },
            WellKnownFunctionKind::PathJoin => {
                let folded = crate::link::link_value(
                    g,
                    h,
                    JsValueV::Call(
                        Box::new(
                            JsValueV::WellKnownFunction(WellKnownFunctionKind::PathJoin),
                        ),
                        args,
                    ),
                );
                let pat = to_pattern(folded);
                (
                    seq![RefV::Source { source: source, path: pat }],
                    if has_constant_parts(pat) {
                        Seq::empty()
                    } else {
                        seq![
                            Diagnostic {
                                severity: Severity::Lint,
                                span: span,
                                code: DiagnosticCode::PathMethod,
                            },
                        ]
                    },
                )
            },
            WellKnownFunctionKind::ChildProcessSpawnMethod(_name) => {
                let la = link_args(g, h, args);
                if la.len() >= 1 {
                    let pat0 = to_pattern(la[0]);
                    if is_match(pat0, "node"@) && la.len() >= 2 {
                        let first = crate::link::link_value(
                            g,
                            h,
                            JsValueV::Member(
                                Box::new(args[1]),
                                Box::new(JsValueV::Constant(ConstV::Num(0))),
                            ),
                        );
                        let patf = to_pattern(first);
                        (
                            seq![
                                RefV::Cjs {
                                    source: source,
                                    request: patf,
                                    from_typescript: is_ts,
                                },
                                RefV::Source { source: source, path: pat0 },
                            ],
                            if has_constant_parts(patf) && has_constant_parts(pat0) {
                                Seq::empty()
                            } else {
                                seq![
                                    Diagnostic {
                                        severity: Severity::Lint,
                                        span: span,
                                        code: DiagnosticCode::ChildProcessSpawn,
                                    },
                                ]
                            },
                        )
                    } else {
                        (
                            seq![RefV::Source { source: source, path: pat0 }],
                            if has_constant_parts(pat0) {
                                Seq::empty()
                            } else {
                                seq![
                                    Diagnostic {
                                        severity: Severity::Lint,
                                        span: span,
                                        code: DiagnosticCode::ChildProcessSpawn,
                                    },
                                ]
                            },
                        )
                    }
                } else {
                    (
                        Seq::empty(),
                        seq![
                            Diagnostic {
                                severity: Severity::Error,
                                span: span,
                                code: DiagnosticCode::ChildProcessSpawn,
                            },
                        ],
                    )
                }
            },
            WellKnownFunctionKind::ChildProcessFork => {
                if args.len() >= 1 {
                    let first = crate::link::link_value(g, h, args[0]);
                    let pat = to_pattern(first);
                    (
                        seq![RefV::Cjs { source: source, request: pat, from_typescript: is_ts }],
                        if has_constant_parts(pat) {
                            Seq::empty()
                        } else {
                            seq![
                                Diagnostic {
                                    severity: Severity::Lint,
                                    span: span,
                                    code: DiagnosticCode::ChildProcessSpawn,
                                },
                            ]
                        },
                    )
                } else {
                    (
                        Seq::empty(),
                        seq![
                            Diagnostic {
                                severity: Severity::Error,
                                span: span,
                                code: DiagnosticCode::ChildProcessSpawn,
                            },
                        ],
                    )
                }
            },
        },
        _ => (Seq::empty(), Seq::empty()),
    }
}

/// The contributions of each alternative callee, in order.
pub open spec fn spec_handle_alts(
    g: VarGraphV,
    h: HostV,
    source: Seq<char>,
    is_ts: bool,
    alts: Seq<JsValueV>,
    args: Seq<JsValueV>,
    span: Span,
) -> (Seq<RefV>, Seq<Diagnostic>)
    decreases alts, 0int,
{
    if alts.len() == 0 {
        (Seq::empty(), Seq::empty())
    } else {
        let (r0, d0) = spec_handle_call(g, h, source, is_ts, alts.first(), args, span);
        let (r1, d1) = spec_handle_alts(g, h, source, is_ts, alts.drop_first(), args, span);
        (r0 + r1, d0 + d1)
    }
}

/// A dynamic `import`, `require` or `require.resolve` call site: with one
/// argument, emit one reference and lint where the pattern is loose; with
/// any other arity, no reference and one error.
pub open spec fn spec_dynamic_request(
    g: VarGraphV,
    h: HostV,
    source: Seq<char>,
    is_ts: bool,
    args: Seq<JsValueV>,
    span: Span,
    code: DiagnosticCode,
    esm: bool,
) -> (Seq<RefV>, Seq<Diagnostic>) {
    let la = link_args(g, h, args);
    if la.len() == 1 {
        let pat = to_pattern(la[0]);
        (
            seq![
                if esm {
                    RefV::Esm { source: source, request: pat, from_typescript: is_ts }
                } else {
                    RefV::Cjs { source: source, request: pat, from_typescript: is_ts }
                },
            ],
            if has_constant_parts(pat) {
                Seq::empty()
            } else {
                seq![Diagnostic { severity: Severity::Lint, span: span, code: code }]
            },
        )
    } else {
        (
            Seq::empty(),
            seq![Diagnostic { severity: Severity::Error, span: span, code: code }],
        )
    }
}

/// Link each raw argument, executably.
fn link_args_exec(g: &VarGraph, h: &HostAnswers, args: &Vec<JsValue>) -> (r: Vec<JsValue>)
    ensures
        deep_list(r@) == link_args(g@, h@, deep_list(args@)),
{
    proof {
        lemma_deep_list(args@);
        lemma_link_args(g@, h@, deep_list(args@));
    }
    let mut out: Vec<JsValue> = Vec::new();
    let mut i: usize = 0;
    while i < args.len()
        invariant
            i <= args@.len(),
            out@.len() == i,
            deep_list(args@).len() == args@.len(),
            forall|j: int| 0 <= j < args@.len() ==> deep_list(args@)[j]
                == #[trigger] args@[j].deep(),
            forall|j: int| 0 <= j < i ==> (#[trigger] out@[j]).deep()
                == crate::link::link_value(g@, h@, args@[j].deep()),
        decreases args@.len() - i,
    {
        let l = crate::link::link(g, h, &args[i]);
        out.push(l);
        i += 1;
    }
    proof {
        lemma_deep_list(out@);
        assert forall|j: int| 0 <= j < out@.len() implies deep_list(out@)[j] == link_args(
            g@,
            h@,
            deep_list(args@),
        )[j] by {
            assert(deep_list(out@)[j] == out@[j].deep());
        }
        assert(deep_list(out@) =~= link_args(g@, h@, deep_list(args@)));
    }
    out
}

/// Handle one call site with its linked callee, executably.
#[verifier::rlimit(80)]
fn handle_call_exec(
    g: &VarGraph,
    h: &HostAnswers,
    source: &String,
    is_ts: bool,
    func: &JsValue,
    args: &Vec<JsValue>,
    span: Span,
) -> (r: (Vec<AssetReference>, Vec<Diagnostic>))
    ensures
        ref_views(r.0@) == spec_handle_call(
            g@,
            h@,
            source@,
            is_ts,
            func@,
            deep_list(args@),
            span,
        ).0,
        r.1@ == spec_handle_call(g@, h@, source@, is_ts, func@, deep_list(args@), span).1,
    decreases func, 1int, 0int,
{
    proof {
        lemma_ref_views(Seq::<AssetReference>::empty());
        assert(ref_views(Seq::<AssetReference>::empty()) =~= Seq::<RefV>::empty());
    }
    match func {
        JsValue::Alternatives(alts) => {
            proof {
                assert(func@ matches JsValueV::Alternatives(a) && a == deep_list(alts@));
                assert(deep_list(alts@).skip(0) =~= deep_list(alts@));
            }
            handle_alts_exec(g, h, source, is_ts, alts, 0, args, span)
        },
        JsValue::WellKnownFunction(wkf) => {
            proof {
                assert(func@ == JsValueV::WellKnownFunction(*wkf));
            }
            match wkf {
                WellKnownFunctionKind::Import => dynamic_request_exec(
                    g,
                    h,
                    source,
                    is_ts,
                    args,
                    span,
                    DiagnosticCode::DynamicImport,
                    true,
                ),
                WellKnownFunctionKind::Require => dynamic_request_exec(
                    g,
                    h,
                    source,
                    is_ts,
                    args,
                    span,
                    DiagnosticCode::Require,
                    false,
                ),
                WellKnownFunctionKind::RequireResolve => dynamic_request_exec(
                    g,
                    h,
                    source,
                    is_ts,
                    args,
                    span,
                    DiagnosticCode::RequireResolve,
                    false,
                ),
                WellKnownFunctionKind::FsReadMethod(_name) => {
                    let la = link_args_exec(g, h, args);
                    proof {
                        lemma_deep_list(la@);
                    }
                    let mut refs: Vec<AssetReference> = Vec::new();
                    let mut diags: Vec<Diagnostic> = Vec::new();
                    if la.len() >= 1 {
                        let pat = pattern_of(&la[0]);
                        let dynamic = !pattern_has_constant_parts(&pat);
                        refs.push(
                            AssetReference::Source(
                                SourceAssetReference { source: source.clone(), path: pat },
                            ),
                        );
                        if dynamic {
                            diags.push(
                                Diagnostic {
                                    severity: Severity::Lint,
                                    span: span,
                                    code: DiagnosticCode::FsMethod,
                                },
                            );
                        }
                        proof {
                            lemma_ref_views(refs@);
                            assert(ref_views(refs@) =~= spec_handle_call(
                                g@,
                                h@,
                                source@,
                                is_ts,
                                func@,
                                deep_list(args@),
                                span,
                            ).0);
                            assert(diags@ =~= spec_handle_call(
                                g@,
                                h@,
                                source@,
                                is_ts,
                                func@,
                                deep_list(args@),
                                span,
                            ).1);
                        }
                    } else {
                        diags.push(
                            Diagnostic {
                                severity: Severity::Error,
                                span: span,
                                code: DiagnosticCode::FsMethod,
                            },
                        );
                        proof {
                            assert(diags@ =~= spec_handle_call(
                                g@,
                                h@,
                                source@,
                                is_ts,
                                func@,
                                deep_list(args@),
                                span,
                            ).1);
                        }
                    }
                    (refs, diags)
                },
                WellKnownFunctionKind::PathJoin => {
                    let rebuilt = JsValue::Call(
                        Box::new(JsValue::WellKnownFunction(WellKnownFunctionKind::PathJoin)),
                        dup_list(args),
                    );
                    proof {
                        assert(rebuilt@ == JsValueV::Call(
                            Box::new(
                                JsValueV::WellKnownFunction(WellKnownFunctionKind::PathJoin),
                            ),
                            deep_list(args@),
                        ));
                    }
                    let folded = crate::link::link(g, h, &rebuilt);
                    let pat = pattern_of(&folded);
                    let dynamic = !pattern_has_constant_parts(&pat);
                    let mut refs: Vec<AssetReference> = Vec::new();
                    let mut diags: Vec<Diagnostic> = Vec::new();
                    refs.push(
                        AssetReference::Source(
                            SourceAssetReference { source: source.clone(), path: pat },
                        ),
                    );
                    if dynamic {
                        diags.push(
                            Diagnostic {
                                severity: Severity::Lint,
                                span: span,
                                code: DiagnosticCode::PathMethod,
                            },
                        );
                    }
                    proof {
                        lemma_ref_views(refs@);
                        assert(ref_views(refs@) =~= spec_handle_call(
                            g@,
                            h@,
                            source@,
                            is_ts,
                            func@,
                            deep_list(args@),
                            span,
                        ).0);
                        assert(diags@ =~= spec_handle_call(
                            g@,
                            h@,
                            source@,
                            is_ts,
                            func@,
                            deep_list(args@),
                            span,
                        ).1);
                    }
                    (refs, diags)
                },
                WellKnownFunctionKind::ChildProcessSpawnMethod(_name) => {
                    let la = link_args_exec(g, h, args);
                    proof {
                        lemma_deep_list(la@);
                        lemma_deep_list(args@);
                        lemma_link_args(g@, h@, deep_list(args@));
                    }
                    let mut refs: Vec<AssetReference> = Vec::new();
                    let mut diags: Vec<Diagnostic> = Vec::new();
                    if la.len() >= 1 {
                        let pat0 = pattern_of(&la[0]);
                        let node_lit = String::from_str("node");
                        proof {
                            reveal_strlit("node");
                        }
                        if pattern_matches(&pat0, &node_lit) && la.len() >= 2 {
                            proof {
                                assert(deep_list(la@).len() == deep_list(args@).len());
                                assert(args@.len() >= 2);
                            }
                            let argdup = dup(&args[1]);
                            let zero = JsValue::Constant(JsConst::Num(0));
                            let ghost adg = argdup;
                            let ghost zg = zero;
                            let member = JsValue::Member(Box::new(argdup), Box::new(zero));
                            proof {
                                assert(member@ == JsValueV::Member(
                                    Box::new(adg@),
                                    Box::new(zg@),
                                ));
                                assert(member@ == JsValueV::Member(
                                    Box::new(args@[1].deep()),
                                    Box::new(JsValueV::Constant(ConstV::Num(0))),
                                ));
                            }
                            let first = crate::link::link(g, h, &member);
                            let patf = pattern_of(&first);
                            let dynf = !pattern_has_constant_parts(&patf);
                            let dyn0 = !pattern_has_constant_parts(&pat0);
                            refs.push(
                                AssetReference::Cjs(
                                    CjsAssetReference {
                                        source: source.clone(),
                                        request: Request { request: patf },
                                        from_typescript: is_ts,
                                    },
                                ),
                            );
                            refs.push(
                                AssetReference::Source(
                                    SourceAssetReference {
                                        source: source.clone(),
                                        path: pat0,
                                    },
                                ),
                            );
                            if dynf || dyn0 {
                                diags.push(
                                    Diagnostic {
                                        severity: Severity::Lint,
                                        span: span,
                                        code: DiagnosticCode::ChildProcessSpawn,
                                    },
                                );
                            }
                            proof {
                                lemma_ref_views(refs@);
                                let sp = spec_handle_call(
                                    g@,
                                    h@,
                                    source@,
                                    is_ts,
                                    func@,
                                    deep_list(args@),
                                    span,
                                );
                                assert(first@ == crate::link::link_value(g@, h@, member@));
                                assert(sp.0.len() == 2);
                                assert(refs@.len() == 2);
                                assert(ref_views(refs@)[0] == refs@[0]@);
                                assert(ref_views(refs@)[1] == refs@[1]@);
                                assert(refs@[0]@ == sp.0[0]);
                                assert(refs@[1]@ == sp.0[1]);
                                assert(ref_views(refs@) =~= sp.0);
                                assert(diags@ =~= sp.1);
                            }
                        } else {
                            let dyn0 = !pattern_has_constant_parts(&pat0);
                            refs.push(
                                AssetReference::Source(
                                    SourceAssetReference {
                                        source: source.clone(),
                                        path: pat0,
                                    },
                                ),
                            );
                            if dyn0 {
                                diags.push(
                                    Diagnostic {
                                        severity: Severity::Lint,
                                        span: span,
                                        code: DiagnosticCode::ChildProcessSpawn,
                                    },
                                );
                            }
                            proof {
                                lemma_ref_views(refs@);
                                assert(ref_views(refs@) =~= spec_handle_call(
                                    g@,
                                    h@,
                                    source@,
                                    is_ts,
                                    func@,
                                    deep_list(args@),
                                    span,
                                ).0);
                                assert(diags@ =~= spec_handle_call(
                                    g@,
                                    h@,
                                    source@,
                                    is_ts,
                                    func@,
                                    deep_list(args@),
                                    span,
                                ).1);
                            }
                        }
                    } else {
                        diags.push(
                            Diagnostic {
                                severity: Severity::Error,
                                span: span,
                                code: DiagnosticCode::ChildProcessSpawn,
                            },
                        );
                        proof {
                            assert(diags@ =~= spec_handle_call(
                                g@,
                                h@,
                                source@,
                                is_ts,
                                func@,
                                deep_list(args@),
                                span,
                            ).1);
                        }
                    }
                    (refs, diags)
                },
                WellKnownFunctionKind::ChildProcessFork => {
                    proof {
                        lemma_deep_list(args@);
                    }
                    let mut refs: Vec<AssetReference> = Vec::new();
                    let mut diags: Vec<Diagnostic> = Vec::new();
                    if args.len() >= 1 {
                        let first = crate::link::link(g, h, &args[0]);
                        let pat = pattern_of(&first);
                        let dynamic = !pattern_has_constant_parts(&pat);
                        refs.push(
                            AssetReference::Cjs(
                                CjsAssetReference {
                                    source: source.clone(),
                                    request: Request { request: pat },
                                    from_typescript: is_ts,
                                },
                            ),
                        );
                        if dynamic {
                            diags.push(
                                Diagnostic {
                                    severity: Severity::Lint,
                                    span: span,
                                    code: DiagnosticCode::ChildProcessSpawn,
                                },
                            );
                        }
                        proof {
                            lemma_ref_views(refs@);
                            assert(ref_views(refs@) =~= spec_handle_call(
                                g@,
                                h@,
                                source@,
                                is_ts,
                                func@,
                                deep_list(args@),
                                span,
                            ).0);
                            assert(diags@ =~= spec_handle_call(
                                g@,
                                h@,
                                source@,
                                is_ts,
                                func@,
                                deep_list(args@),
                                span,
                            ).1);
                        }
                    } else {
                        diags.push(
                            Diagnostic {
                                severity: Severity::Error,
                                span: span,
                                code: DiagnosticCode::ChildProcessSpawn,
                            },
                        );
                        proof {
                            assert(diags@ =~= spec_handle_call(
                                g@,
                                h@,
                                source@,
                                is_ts,
                                func@,
                                deep_list(args@),
                                span,
                            ).1);
                        }
                    }
                    (refs, diags)
                },
            }
        },
        _ => (Vec::new(), Vec::new()),
    }
}

/// Handle the alternatives of a joined callee from index `i` on.
fn handle_alts_exec(
    g: &VarGraph,
    h: &HostAnswers,
    source: &String,
    is_ts: bool,
    alts: &Vec<JsValue>,
    i: usize,
    args: &Vec<JsValue>,
    span: Span,
) -> (r: (Vec<AssetReference>, Vec<Diagnostic>))
    requires
        i <= alts@.len(),
    ensures
        ref_views(r.0@) == spec_handle_alts(
            g@,
            h@,
            source@,
            is_ts,
            deep_list(alts@).skip(i as int),
            deep_list(args@),
            span,
        ).0,
        r.1@ == spec_handle_alts(
            g@,
            h@,
            source@,
            is_ts,
            deep_list(alts@).skip(i as int),
            deep_list(args@),
            span,
        ).1,
    decreases alts, 0int, alts@.len() - i,
{
    proof {
        lemma_deep_list(alts@);
    }
    if i == alts.len() {
        proof {
            assert(deep_list(alts@).skip(i as int) =~= Seq::<JsValueV>::empty());
            lemma_ref_views(Seq::<AssetReference>::empty());
            assert(ref_views(Seq::<AssetReference>::empty()) =~= Seq::<RefV>::empty());
        }
        (Vec::new(), Vec::new())
    } else {
        proof {
            assert(decreases_to!(alts => alts@));
            assert(decreases_to!(alts@ => alts@[i as int]));
            assert(deep_list(alts@).skip(i as int).first() == alts@[i as int].deep());
            assert(deep_list(alts@).skip(i as int).drop_first() =~= deep_list(alts@).skip(
                i as int + 1,
            ));
        }
        let (mut r0, mut d0) = handle_call_exec(g, h, source, is_ts, &alts[i], args, span);
        let (mut r1, mut d1) = handle_alts_exec(g, h, source, is_ts, alts, i + 1, args, span);
        let ghost r0g = r0@;
        let ghost r1g = r1@;
        let ghost d0g = d0@;
        let ghost d1g = d1@;
        r0.append(&mut r1);
        d0.append(&mut d1);
        proof {
            assert(r0@ == r0g + r1g);
            crate::refs::lemma_ref_views_concat(r0g, r1g);
            assert(d0@ == d0g + d1g);
        }
        (r0, d0)
    }
}

/// A dynamic request call site, executably.
fn dynamic_request_exec(
    g: &VarGraph,
    h: &HostAnswers,
    source: &String,
    is_ts: bool,
    args: &Vec<JsValue>,
    span: Span,
    code: DiagnosticCode,
    esm: bool,
) -> (r: (Vec<AssetReference>, Vec<Diagnostic>))
    ensures
        ref_views(r.0@) == spec_dynamic_request(
            g@,
            h@,
            source@,
            is_ts,
            deep_list(args@),
            span,
            code,
            esm,
        ).0,
        r.1@ == spec_dynamic_request(
            g@,
            h@,
            source@,
            is_ts,
            deep_list(args@),
            span,
            code,
            esm,
        ).1,
{
    let la = link_args_exec(g, h, args);
    proof {
        lemma_deep_list(la@);
    }
    let mut refs: Vec<AssetReference> = Vec::new();
    let mut diags: Vec<Diagnostic> = Vec::new();
    if la.len() == 1 {
        let pat = pattern_of(&la[0]);
        let dynamic = !pattern_has_constant_parts(&pat);
        if esm {
            refs.push(
                AssetReference::Esm(
                    EsmAssetReference {
                        source: source.clone(),
                        request: Request { request: pat },
                        from_typescript: is_ts,
                    },
                ),
            );
        } else {
            refs.push(
                AssetReference::Cjs(
                    CjsAssetReference {
                        source: source.clone(),
                        request: Request { request: pat },
                        from_typescript: is_ts,
                    },
                ),
            );
        }
        if dynamic {
            diags.push(Diagnostic { severity: Severity::Lint, span: span, code: code });
        }
        proof {
            lemma_ref_views(refs@);
            assert(ref_views(refs@) =~= spec_dynamic_request(
                g@,
                h@,
                source@,
                is_ts,
                deep_list(args@),
                span,
                code,
                esm,
            ).0);
            assert(diags@ =~= spec_dynamic_request(
                g@,
                h@,
                source@,
                is_ts,
                deep_list(args@),
                span,
                code,
                esm,
            ).1);
        }
    } else {
        diags.push(Diagnostic { severity: Severity::Error, span: span, code: code });
        proof {
            lemma_ref_views(refs@);
            assert(ref_views(refs@) =~= Seq::<RefV>::empty());
            assert(diags@ =~= spec_dynamic_request(
                g@,
                h@,
                source@,
                is_ts,
                deep_list(args@),
                span,
                code,
                esm,
            ).1);
        }
    }
    (refs, diags)
}

/// The triple-slash directive references of the leading comments.
pub open spec fn comment_refs(cs: Seq<Comment>, source: Seq<char>) -> Seq<RefV>
    decreases cs,
{
    if cs.len() == 0 {
        Seq::empty()
    } else {
        (if cs.first().kind == CommentKind::Line {
            match ts_directive(cs.first().text@) {
                Some(d) => if d.0 {
                    seq![RefV::TsReferenceType { source: source, module_name: d.1 }]
                } else {
                    seq![RefV::TsReferencePath { source: source, path: d.1 }]
                },
                None => Seq::empty(),
            }
        } else {
            Seq::empty()
        }) + comment_refs(cs.drop_first(), source)
    }
}

/// The triple-slash directive references, executably, from index `i` on.
fn comment_refs_exec(cs: &Vec<Comment>, i: usize, source: &String) -> (r: Vec<AssetReference>)
    requires
        i <= cs@.len(),
    ensures
        ref_views(r@) == comment_refs(cs@.skip(i as int), source@),
    decreases cs@.len() - i,
{
    if i == cs.len() {
        proof {
            assert(cs@.skip(i as int) =~= Seq::<Comment>::empty());
            lemma_ref_views(Seq::<AssetReference>::empty());
            assert(ref_views(Seq::<AssetReference>::empty()) =~= Seq::<RefV>::empty());
        }
        Vec::new()
    } else {
        proof {
            assert(cs@.skip(i as int).first() == cs@[i as int]);
            assert(cs@.skip(i as int).drop_first() =~= cs@.skip(i as int + 1));
            assert(cs@[i as int] == (Comment { kind: cs@[i as int].kind, text: cs@[i as int].text }));
        }
        let mut rest = comment_refs_exec(cs, i + 1, source);
        let head: Option<AssetReference> = if matches!(cs[i].kind, CommentKind::Line) {
            match parse_ts_directive(&cs[i].text) {
                Some(d) => if d.0 {
                    Some(
                        AssetReference::TsReferenceType(
                            TsReferenceTypeAssetReference {
                                source: source.clone(),
                                module: d.1,
                            },
                        ),
                    )
                } else {
                    Some(
                        AssetReference::TsReferencePath(
                            TsReferencePathAssetReference {
                                source: source.clone(),
                                path: d.1,
                            },
                        ),
                    )
                },
                None => None,
            }
        } else {
            None
        };
        let ghost r0 = rest@;
        match head {
            Some(hr) => {
                let ghost hg = hr;
                rest.insert(0, hr);
                proof {
                    assert(rest@ =~= seq![hg] + r0);
                    crate::refs::lemma_ref_views_concat(seq![hg], r0);
                    lemma_ref_views(seq![hg]);
                    assert(ref_views(seq![hg]) =~= seq![hg@]);
                    assert(ref_views(rest@) =~= comment_refs(cs@.skip(i as int), source@));
                }
                rest
            },
            None => {
                proof {
                    assert(ref_views(rest@) =~= comment_refs(cs@.skip(i as int), source@));
                }
                rest
            },
        }
    }
}

/// The chunk references for the collected chunk ids.
pub open spec fn chunk_refs(chunks: Seq<ConstV>, rt: WebpackRuntimeV) -> Seq<RefV> {
    Seq::new(chunks.len(), |i: int| RefV::WebpackChunk { chunk_id: chunks[i], runtime: rt })
}

/// The references and diagnostics of the effects from the graph, in
/// effect order; the suppressed span contributes nothing.
pub open spec fn spec_effects(
    effs: Seq<EffectV>,
    ignore: Option<Span>,
    g: VarGraphV,
    h: HostV,
    source: Seq<char>,
    is_ts: bool,
) -> (Seq<RefV>, Seq<Diagnostic>)
    decreases effs,
{
    if effs.len() == 0 {
        (Seq::empty(), Seq::empty())
    } else {
        let head = spec_effect(effs.first(), ignore, g, h, source, is_ts);
        let rest = spec_effects(effs.drop_first(), ignore, g, h, source, is_ts);
        (head.0 + rest.0, head.1 + rest.1)
    }
}

/// The contribution of one effect.
pub open spec fn spec_effect(
    eff: EffectV,
    ignore: Option<Span>,
    g: VarGraphV,
    h: HostV,
    source: Seq<char>,
    is_ts: bool,
) -> (Seq<RefV>, Seq<Diagnostic>) {
    match eff {
        EffectV::Call { func, args, span } => {
            if ignore matches Some(sp) && sp == span {
                (Seq::empty(), Seq::empty())
            } else {
                spec_handle_call(
                    g,
                    h,
                    source,
                    is_ts,
                    crate::link::link_value(g, h, func),
                    args,
                    span,
                )
            }
        },
        EffectV::MemberCall { obj, prop, args, span } => {
            if ignore matches Some(sp) && sp == span {
                (Seq::empty(), Seq::empty())
            } else {
                spec_handle_call(
                    g,
                    h,
                    source,
                    is_ts,
                    crate::link::link_value(
                        g,
                        h,
                        JsValueV::Member(Box::new(obj), Box::new(prop)),
                    ),
                    args,
                    span,
                )
            }
        },
    }
}

/// The contribution of the effects from index `i` on, executably.
fn effects_exec(
    g: &VarGraph,
    i: usize,
    ignore: Option<Span>,
    h: &HostAnswers,
    source: &String,
    is_ts: bool,
) -> (r: (Vec<AssetReference>, Vec<Diagnostic>))
    requires
        i <= g.effects@.len(),
    ensures
        ref_views(r.0@) == spec_effects(
            effect_views(g.effects@).skip(i as int),
            ignore,
            g@,
            h@,
            source@,
            is_ts,
        ).0,
        r.1@ == spec_effects(
            effect_views(g.effects@).skip(i as int),
            ignore,
            g@,
            h@,
            source@,
            is_ts,
        ).1,
    decreases g.effects@.len() - i,
{
    proof {
        lemma_effect_views(g.effects@);
    }
    if i == g.effects.len() {
        proof {
            assert(effect_views(g.effects@).skip(i as int) =~= Seq::<EffectV>::empty());
            lemma_ref_views(Seq::<AssetReference>::empty());
            assert(ref_views(Seq::<AssetReference>::empty()) =~= Seq::<RefV>::empty());
        }
        (Vec::new(), Vec::new())
    } else {
        proof {
            assert(effect_views(g.effects@).skip(i as int).first()
                == effect_views(g.effects@)[i as int]);
            assert(effect_views(g.effects@).skip(i as int).drop_first() =~= effect_views(
                g.effects@,
            ).skip(i as int + 1));
        }
        let head: (Vec<AssetReference>, Vec<Diagnostic>) = match &g.effects[i] {
            Effect::Call { func, args, span } => {
                proof {
                    assert(g.effects@[i as int]@ matches EffectV::Call {
                        func: f0,
                        args: a0,
                        span: s0,
                    } && f0 == func.deep() && a0 == deep_list(args@) && s0 == *span);
                }
                let skip: bool = match ignore {
                    Some(sp) => sp == *span,
                    None => false,
                };
                if skip {
                    proof {
                        lemma_ref_views(Seq::<AssetReference>::empty());
                        assert(ref_views(Seq::<AssetReference>::empty()) =~= Seq::<
                            RefV,
                        >::empty());
                    }
                    (Vec::new(), Vec::new())
                } else {
                    let linked = crate::link::link(g, h, func);
                    handle_call_exec(g, h, source, is_ts, &linked, args, *span)
                }
            },
            Effect::MemberCall { obj, prop, args, span } => {
                proof {
                    assert(g.effects@[i as int]@ matches EffectV::MemberCall {
                        obj: o0,
                        prop: p0,
                        args: a0,
                        span: s0,
                    } && o0 == obj.deep() && p0 == prop.deep() && a0 == deep_list(args@) && s0
                        == *span);
                }
                let skip: bool = match ignore {
                    Some(sp) => sp == *span,
                    None => false,
                };
                if skip {
                    proof {
                        lemma_ref_views(Seq::<AssetReference>::empty());
                        assert(ref_views(Seq::<AssetReference>::empty()) =~= Seq::<
                            RefV,
                        >::empty());
                    }
                    (Vec::new(), Vec::new())
                } else {
                    let od = dup(obj);
                    let pd = dup(prop);
                    let ghost odg = od;
                    let ghost pdg = pd;
                    let member = JsValue::Member(Box::new(od), Box::new(pd));
                    proof {
                        assert(member@ == JsValueV::Member(
                            Box::new(odg@),
                            Box::new(pdg@),
                        ));
                    }
                    let linked = crate::link::link(g, h, &member);
                    handle_call_exec(g, h, source, is_ts, &linked, args, *span)
                }
            },
        };
        let (mut r0, mut d0) = head;
        let (mut r1, mut d1) = effects_exec(g, i + 1, ignore, h, source, is_ts);
        let ghost r0g = r0@;
        let ghost r1g = r1@;
        let ghost d0g = d0@;
        let ghost d1g = d1@;
        r0.append(&mut r1);
        d0.append(&mut d1);
        proof {
            assert(r0@ == r0g + r1g);
            crate::refs::lemma_ref_views_concat(r0g, r1g);
            assert(d0@ == d0g + d1g);
        }
        (r0, d0)
    }
}

/// Is triple-slash handling gated on for this module type?
pub open spec fn is_typescript(ty: ModuleAssetType) -> bool {
    ty == ModuleAssetType::Typescript || ty == ModuleAssetType::TypescriptDeclaration
}

/// The references and diagnostics of one module: `package.json`,
/// `tsconfig.json` for TypeScript, then the parsed content's own. Input
/// that did not parse, or was not found, gives an empty list.
pub open spec fn spec_module_references(
    ty: ModuleAssetType,
    parsed: ParseResult,
    h: HostV,
) -> (Seq<RefV>, Seq<Diagnostic>) {
    let refs0: Seq<RefV> = match h.package_json {
        Some(p) => seq![RefV::PackageJson { package_json: p }],
        None => Seq::empty(),
    };
    let refs1: Seq<RefV> = refs0 + (if is_typescript(ty) {
        match h.tsconfig {
            Some(p) => seq![RefV::TsConfig { tsconfig: p }],
            None => Seq::empty(),
        }
    } else {
        Seq::empty()
    });
    match parsed {
        ParseResult::Parsed(m) => {
            let refs2 = refs1 + (if is_typescript(ty) {
                comment_refs(m.leading_comments@, h.source_path)
            } else {
                Seq::empty()
            });
            let vis = visit_items(m.items@, h.source_path, is_typescript(ty), visit_start());
            let refs3 = refs2 + vis.refs;
            let marker: Option<(Seq<char>, Span, WebpackRuntimeV)> = match vis.runtime {
                Some(mk) => match lookup_webpack(h.webpack, mk.0) {
                    WebpackRuntimeV::Webpack5 { context_path } => Some(
                        (
                            mk.0,
                            mk.1,
                            WebpackRuntimeV::Webpack5 { context_path: context_path },
                        ),
                    ),
                    WebpackRuntimeV::NoRuntime => None,
                },
                None => None,
            };
            let ignore: Option<Span> = match marker {
                Some(mk) => Some(mk.1),
                None => None,
            };
            let refs4 = refs3 + (match marker {
                Some(mk) => seq![
                    RefV::WebpackRuntime {
                        source: h.source_path,
                        request: PatternV::Constant(mk.0),
                        runtime: mk.2,
                    },
                ] + (if vis.entry {
                    seq![RefV::WebpackEntry { source: h.source_path, runtime: mk.2 }]
                } else {
                    Seq::empty()
                }) + chunk_refs(vis.chunks, mk.2),
                None => Seq::empty(),
            });
            let g = crate::builder::graph_of(m);
            let eff = spec_effects(
                g.effects,
                ignore,
                g,
                h,
                h.source_path,
                is_typescript(ty),
            );
            (refs4 + eff.0, eff.1)
        },
        _ => (Seq::<RefV>::empty(), Seq::empty()),
    }
}

/// Analyze one module: collect its outbound references and the
/// diagnostics of the analysis. The compile target is passed through and
/// does not change the outcome of the current lowering rules.
#[verifier::rlimit(100)]
pub fn module_references(
    ty: ModuleAssetType,
    _target: CompileTarget,
    parsed: &ParseResult,
    host: &HostAnswers,
) -> (r: AnalysisResult)
    ensures
        ref_views(r.references@) == spec_module_references(ty, *parsed, host@).0,
        r.diagnostics@ == spec_module_references(ty, *parsed, host@).1,
{
    let is_ts = match ty {
        ModuleAssetType::Typescript => true,
        ModuleAssetType::TypescriptDeclaration => true,
        ModuleAssetType::Ecmascript => false,
    };
    let mut refs: Vec<AssetReference> = Vec::new();
    proof {
        lemma_ref_views(Seq::<AssetReference>::empty());
        assert(ref_views(Seq::<AssetReference>::empty()) =~= Seq::<RefV>::empty());
    }
    match &host.package_json {
        Some(p) => {
            let ghost rs = refs@;
            let pr = AssetReference::PackageJson(
                PackageJsonReference { package_json: p.clone() },
            );
            proof {
                lemma_ref_views_push(rs, pr);
            }
            refs.push(pr);
        },
        None => {},
    }
    let ghost refs0v = ref_views(refs@);
    if is_ts {
        match &host.tsconfig {
            Some(p) => {
                let ghost rs = refs@;
                let tr = AssetReference::TsConfig(TsConfigReference { tsconfig: p.clone() });
                proof {
                    lemma_ref_views_push(rs, tr);
                }
                refs.push(tr);
            },
            None => {},
        }
    }
    let ghost refs1v = ref_views(refs@);
    match parsed {
        ParseResult::Parsed(m) => {
            proof {
                assert(*parsed matches ParseResult::Parsed(m0) && m0 == *m);
                assert(*m == (Module {
                    items: m.items,
                    leading_comments: m.leading_comments,
                }));
            }
            if is_ts {
                proof {
                    assert(m.leading_comments@.skip(0) =~= m.leading_comments@);
                }
                let mut cr = comment_refs_exec(&m.leading_comments, 0, &host.source_path);
                let ghost rs = refs@;
                let ghost crg = cr@;
                refs.append(&mut cr);
                proof {
                    assert(refs@ == rs + crg);
                    crate::refs::lemma_ref_views_concat(rs, crg);
                }
            }
            let ghost refs2v = ref_views(refs@);
            let start = Visitor {
                references: Vec::new(),
                analyser: StaticAnalyser { imports: Vec::new() },
                webpack_runtime: None,
                webpack_entry: false,
                webpack_chunks: Vec::new(),
            };
            proof {
                lemma_ref_views(Seq::<AssetReference>::empty());
                assert(start@.refs =~= visit_start().refs);
                assert(start@.imports =~= visit_start().imports);
                assert(start@.chunks =~= visit_start().chunks);
                assert(start@ == visit_start());
                assert(m.items@.skip(0) =~= m.items@);
            }
            let vis = visit_items_exec(&m.items, 0, &host.source_path, is_ts, start);
            let ghost visv = vis@;
            let mut vrefs = vis.references;
            let ghost rs = refs@;
            let ghost vrg = vrefs@;
            refs.append(&mut vrefs);
            proof {
                assert(refs@ == rs + vrg);
                crate::refs::lemma_ref_views_concat(rs, vrg);
            }
            let ghost refs3v = ref_views(refs@);
            let mut ignore: Option<Span> = None;
            match &vis.webpack_runtime {
                Some(mk) => {
                    let rt = host.resolve_webpack(&mk.0);
                    match rt {
                        WebpackRuntime::Webpack5 { context_path } => {
                            ignore = Some(mk.1);
                            let rt1 = WebpackRuntime::Webpack5 {
                                context_path: context_path.clone(),
                            };
                            let ghost rs2 = refs@;
                            let wr = AssetReference::WebpackRuntime(
                                WebpackRuntimeAssetReference {
                                    source: host.source_path.clone(),
                                    request: Request {
                                        request: Pattern::Constant(mk.0.clone()),
                                    },
                                    runtime: rt1,
                                },
                            );
                            proof {
                                lemma_ref_views_push(rs2, wr);
                            }
                            refs.push(wr);
                            if vis.webpack_entry {
                                let ghost rs3 = refs@;
                                let we = AssetReference::WebpackEntry(
                                    WebpackEntryAssetReference {
                                        source: host.source_path.clone(),
                                        runtime: WebpackRuntime::Webpack5 {
                                            context_path: context_path.clone(),
                                        },
                                    },
                                );
                                proof {
                                    lemma_ref_views_push(rs3, we);
                                }
                                refs.push(we);
                            }
                            let mut k: usize = 0;
                            let ghost base = ref_views(refs@);
                            while k < vis.webpack_chunks.len()
                                invariant
                                    k <= vis.webpack_chunks@.len(),
                                    ref_views(refs@) =~= base + Seq::new(
                                        k as nat,
                                        |i: int| RefV::WebpackChunk {
                                            chunk_id: vis.webpack_chunks@[i]@,
                                            runtime: WebpackRuntimeV::Webpack5 {
                                                context_path: context_path@,
                                            },
                                        },
                                    ),
                                decreases vis.webpack_chunks@.len() - k,
                            {
                                let ghost rs4 = refs@;
                                let wc = AssetReference::WebpackChunk(
                                    WebpackChunkAssetReference {
                                        chunk_id: dup_const(&vis.webpack_chunks[k]),
                                        runtime: WebpackRuntime::Webpack5 {
                                            context_path: context_path.clone(),
                                        },
                                    },
                                );
                                proof {
                                    lemma_ref_views_push(rs4, wc);
                                }
                                refs.push(wc);
                                k += 1;
                            }
                        },
                        WebpackRuntime::NoRuntime => {},
                    }
                },
                None => {},
            }
            let ghost refs4v = ref_views(refs@);
            let g = crate::builder::create_graph(m);
            proof {
                assert(effect_views(g.effects@).skip(0) =~= effect_views(g.effects@));
            }
            let (mut erefs, diags) = effects_exec(&g, 0, ignore, host, &host.source_path,
                is_ts);
            let ghost rs5 = refs@;
            let ghost erg = erefs@;
            refs.append(&mut erefs);
            proof {
                assert(refs@ == rs5 + erg);
                crate::refs::lemma_ref_views_concat(rs5, erg);
            }
            AnalysisResult { references: refs, diagnostics: diags }
        },
        _ => {
            let empty_refs: Vec<AssetReference> = Vec::new();
            proof {
                lemma_ref_views(Seq::<AssetReference>::empty());
                assert(ref_views(Seq::<AssetReference>::empty()) =~= Seq::<RefV>::empty());
            }
            AnalysisResult { references: empty_refs, diagnostics: Vec::new() }
        },
    }
}

/// The analysis is deterministic: the same module type, parse result and
/// host answers give the same references and diagnostics.
pub proof fn lemma_analysis_deterministic(
    ty: ModuleAssetType,
    parsed: ParseResult,
    h: HostV,
    r1: (Seq<RefV>, Seq<Diagnostic>),
    r2: (Seq<RefV>, Seq<Diagnostic>),
)
    requires
        r1 == spec_module_references(ty, parsed, h),
        r2 == spec_module_references(ty, parsed, h),
    ensures
        r1 == r2,
{
}

/// Every static import, `export .. from` and `export *` produces exactly
/// one ESM reference with the literal specifier, in source order, and the
/// syntactic pass emits no other references.
pub open spec fn esm_expected(its: Seq<ModuleItem>, source: Seq<char>, is_ts: bool) -> Seq<
    RefV,
>
    decreases its,
{
    if its.len() == 0 {
        Seq::empty()
    } else {
        (match its.first() {
            ModuleItem::Import(d) => seq![esm_ref(source, d.src@, is_ts)],
            ModuleItem::ExportNamed { src } => match src {
                Some(s) => seq![esm_ref(source, s@, is_ts)],
                None => Seq::empty(),
            },
            ModuleItem::ExportAll { src } => seq![esm_ref(source, src@, is_ts)],
            ModuleItem::Stmt(_) => Seq::empty(),
        }) + esm_expected(its.drop_first(), source, is_ts)
    }
}

/// The references of the syntactic pass are exactly the expected ESM
/// references of the static edges, appended to what was there before.
pub proof fn lemma_esm_references(its: Seq<ModuleItem>, source: Seq<char>, is_ts: bool,
    st: VisitV)
    ensures
        visit_items(its, source, is_ts, st).refs == st.refs + esm_expected(its, source, is_ts),
    decreases its,
{
    if its.len() == 0 {
        assert(visit_items(its, source, is_ts, st).refs =~= st.refs + esm_expected(
            its,
            source,
            is_ts,
        ));
    } else {
        let st1 = visit_item(its.first(), source, is_ts, st);
        lemma_esm_references(its.drop_first(), source, is_ts, st1);
        assert(st1.refs == st.refs + (match its.first() {
            ModuleItem::Import(d) => seq![esm_ref(source, d.src@, is_ts)],
            ModuleItem::ExportNamed { src } => match src {
                Some(s) => seq![esm_ref(source, s@, is_ts)],
                None => Seq::empty(),
            },
            ModuleItem::ExportAll { src } => seq![esm_ref(source, src@, is_ts)],
            ModuleItem::Stmt(_) => Seq::empty(),
        })) by {
            match its.first() {
                ModuleItem::Import(d) => {
                    assert(st1.refs =~= st.refs + seq![esm_ref(source, d.src@, is_ts)]);
                },
                ModuleItem::ExportNamed { src } => match src {
                    Some(s) => {
                        assert(st1.refs =~= st.refs + seq![esm_ref(source, s@, is_ts)]);
                    },
                    None => {
                        assert(st1.refs =~= st.refs + Seq::<RefV>::empty());
                    },
                },
                ModuleItem::ExportAll { src } => {
                    assert(st1.refs =~= st.refs + seq![esm_ref(source, src@, is_ts)]);
                },
                ModuleItem::Stmt(s) => {
                    lemma_visit_stmt_refs(s, st);
                    assert(st1.refs =~= st.refs + Seq::<RefV>::empty());
                },
            }
        }
        assert(visit_items(its, source, is_ts, st).refs =~= st.refs + esm_expected(
            its,
            source,
            is_ts,
        ));
    }
}

/// Statements emit no references in the syntactic pass.
proof fn lemma_visit_stmt_refs(s: Stmt, st: VisitV)
    ensures
        visit_stmt(s, st).refs == st.refs,
    decreases s, 4int,
{
    match s {
        Stmt::VarDecl(ds) => {
            lemma_visit_declarators_refs(ds@, st);
        },
        Stmt::Expr(e) => {
            lemma_visit_expr_refs(e, st);
        },
        Stmt::FnDecl { name: _name, params: _params, body } => {
            lemma_visit_stmts_refs(body@, st);
        },
    }
}

/// Statement lists emit no references in the syntactic pass.
proof fn lemma_visit_stmts_refs(ss: Seq<Stmt>, st: VisitV)
    ensures
        visit_stmts(ss, st).refs == st.refs,
    decreases ss, 5int,
{
    if ss.len() > 0 {
        lemma_visit_stmt_refs(ss.first(), st);
        lemma_visit_stmts_refs(ss.drop_first(), visit_stmt(ss.first(), st));
    }
}

/// Declarators emit no references in the syntactic pass.
proof fn lemma_visit_declarators_refs(ds: Seq<VarDeclarator>, st: VisitV)
    ensures
        visit_declarators(ds, st).refs == st.refs,
    decreases ds, 5int,
{
    if ds.len() > 0 {
        lemma_visit_declarator_refs(ds.first(), st);
        lemma_visit_declarators_refs(ds.drop_first(), visit_declarator(ds.first(), st));
    }
}

/// One declarator emits no references in the syntactic pass.
proof fn lemma_visit_declarator_refs(d: VarDeclarator, st: VisitV)
    ensures
        visit_declarator(d, st).refs == st.refs,
    decreases d, 4int,
{
    if runtime_marker(d) is None {
        match d.init {
            Some(e) => lemma_visit_expr_refs(e, st),
            None => {},
        }
    }
}

/// Expressions emit no references in the syntactic pass.
proof fn lemma_visit_expr_refs(e: Expr, st: VisitV)
    ensures
        visit_expr(e, st).refs == st.refs,
    decreases e, 2int,
{
    assert(visit_call(e, st).refs == st.refs);
    lemma_visit_children_refs(e, visit_call(e, st));
}

/// The children of an expression emit no references.
proof fn lemma_visit_children_refs(e: Expr, st: VisitV)
    ensures
        visit_children(e, st).refs == st.refs,
    decreases e, 1int,
{
    match e {
        Expr::Bin { left, right } => {
            lemma_visit_expr_refs(*left, st);
            lemma_visit_expr_refs(*right, visit_expr(*left, st));
        },
        Expr::Member { obj, prop } => {
            lemma_visit_expr_refs(*obj, st);
            lemma_visit_prop_refs(prop, visit_expr(*obj, st));
        },
        Expr::Call { callee, args, span: _span } => {
            let st1 = match *callee {
                Callee::Expr(ce) => visit_expr(*ce, st),
                Callee::Import => st,
            };
            match *callee {
                Callee::Expr(ce) => lemma_visit_expr_refs(*ce, st),
                Callee::Import => {},
            }
            lemma_visit_expr_list_refs(args@, st1);
        },
        Expr::Array { elems } => {
            lemma_visit_expr_list_refs(elems@, st);
        },
        Expr::Cond { test, cons, alt } => {
            lemma_visit_expr_refs(*test, st);
            lemma_visit_expr_refs(*cons, visit_expr(*test, st));
            lemma_visit_expr_refs(*alt, visit_expr(*cons, visit_expr(*test, st)));
        },
        _ => {},
    }
}

/// A member property emits no references.
proof fn lemma_visit_prop_refs(p: MemberProp, st: VisitV)
    ensures
        visit_prop(p, st).refs == st.refs,
    decreases p, 2int,
{
    match p {
        MemberProp::Computed(e) => lemma_visit_expr_refs(*e, st),
        _ => {},
    }
}

/// An expression list emits no references.
proof fn lemma_visit_expr_list_refs(es: Seq<Expr>, st: VisitV)
    ensures
        visit_expr_list(es, st).refs == st.refs,
    decreases es, 3int,
{
    if es.len() > 0 {
        lemma_visit_expr_refs(es.first(), st);
        lemma_visit_expr_list_refs(es.drop_first(), visit_expr(es.first(), st));
    }
}

/// A dynamic `import`, `require` or `require.resolve` call site with one
/// argument whose pattern pins down a constant part emits exactly one
/// reference of the matching kind and no diagnostic.
pub proof fn lemma_dynamic_call_resolves(
    g: VarGraphV,
    h: HostV,
    source: Seq<char>,
    is_ts: bool,
    args: Seq<JsValueV>,
    span: Span,
    code: DiagnosticCode,
    esm: bool,
)
    requires
        link_args(g, h, args).len() == 1,
        has_constant_parts(to_pattern(link_args(g, h, args)[0])),
    ensures
        spec_dynamic_request(g, h, source, is_ts, args, span, code, esm).0.len() == 1,
        spec_dynamic_request(g, h, source, is_ts, args, span, code, esm).0[0] == (if esm {
            RefV::Esm {
                source: source,
                request: to_pattern(link_args(g, h, args)[0]),
                from_typescript: is_ts,
            }
        } else {
            RefV::Cjs {
                source: source,
                request: to_pattern(link_args(g, h, args)[0]),
                from_typescript: is_ts,
            }
        }),
        spec_dynamic_request(g, h, source, is_ts, args, span, code, esm).1.len() == 0,
{
}

/// The same call sites with a pattern that pins down no constant part
/// still emit the reference, with exactly one lint diagnostic carrying
/// the given code.
pub proof fn lemma_dynamic_call_lints(
    g: VarGraphV,
    h: HostV,
    source: Seq<char>,
    is_ts: bool,
    args: Seq<JsValueV>,
    span: Span,
    code: DiagnosticCode,
    esm: bool,
)
    requires
        link_args(g, h, args).len() == 1,
        !has_constant_parts(to_pattern(link_args(g, h, args)[0])),
    ensures
        spec_dynamic_request(g, h, source, is_ts, args, span, code, esm).0.len() == 1,
        spec_dynamic_request(g, h, source, is_ts, args, span, code, esm).1 == seq![
            Diagnostic { severity: Severity::Lint, span: span, code: code },
        ],
{
}

/// The same call sites with any other arity emit no reference and exactly
/// one error diagnostic.
pub proof fn lemma_dynamic_call_errors(
    g: VarGraphV,
    h: HostV,
    source: Seq<char>,
    is_ts: bool,
    args: Seq<JsValueV>,
    span: Span,
    code: DiagnosticCode,
    esm: bool,
)
    requires
        link_args(g, h, args).len() != 1,
    ensures
        spec_dynamic_request(g, h, source, is_ts, args, span, code, esm).0.len() == 0,
        spec_dynamic_request(g, h, source, is_ts, args, span, code, esm).1 == seq![
            Diagnostic { severity: Severity::Error, span: span, code: code },
        ],
{
}

/// An effect whose span is the suppressed one contributes no reference
/// and no diagnostic: a recognized webpack runtime declarator suppresses
/// the CommonJS reference the generic handler would emit for it.
pub proof fn lemma_suppressed_effect(
    eff: EffectV,
    sp: Span,
    g: VarGraphV,
    h: HostV,
    source: Seq<char>,
    is_ts: bool,
)
    requires
        (eff matches EffectV::Call { span, .. } && span == sp) || (eff matches
            EffectV::MemberCall { span, .. } && span == sp),
    ensures
        spec_effect(eff, Some(sp), g, h, source, is_ts).0 == Seq::<RefV>::empty(),
        spec_effect(eff, Some(sp), g, h, source, is_ts).1 == Seq::<Diagnostic>::empty(),
{
}

/// Each string or number literal of the inline chunk array yields exactly
/// one chunk id, in order; other elements are skipped silently.
pub proof fn lemma_chunk_ids(elems: Seq<Expr>)
    ensures
        chunk_ids(elems).len() <= elems.len(),
        forall|i: int| 0 <= i < chunk_ids(elems).len() ==> (#[trigger] chunk_ids(elems)[i])
            is Str || chunk_ids(elems)[i] is Num,
        elems.len() > 0 ==> chunk_ids(elems) == (match elems.first() {
            Expr::Lit(c) => match c {
                JsConst::Str(_) => seq![c@],
                JsConst::Num(_) => seq![c@],
                _ => Seq::<ConstV>::empty(),
            },
            _ => Seq::<ConstV>::empty(),
        }) + chunk_ids(elems.drop_first()),
    decreases elems.len(),
{
    if elems.len() > 0 {
        lemma_chunk_ids(elems.drop_first());
    }
}

} // verus!
