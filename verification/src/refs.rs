//! Reference records: the typed edges the analysis emits, and the resolve
//! plan each record gives to the external resolver.

use vstd::prelude::*;
use crate::pattern::{Pattern, PatternV, dup_pattern};

verus! {

broadcast use vstd::std_specs::vec::group_vec_axioms, vstd::seq::group_seq_axioms;

/// An unresolved module request.
#[derive(Debug)]
pub struct Request {
    pub request: Pattern,
}

/// Mathematical view of a request.
pub struct RequestV {
    pub request: PatternV,
}

impl View for Request {
    type V = RequestV;

    open spec fn view(&self) -> RequestV {
        RequestV { request: self.request@ }
    }
}

impl Request {
    /// Wrap a pattern as a request.
    pub fn parse(p: Pattern) -> (r: Request)
        ensures
            r@.request == p@,
    {
        Request { request: p }
    }
}

/// The webpack runtime resolution of a request, as the host answered it.
#[derive(Debug)]
pub enum WebpackRuntime {
    /// A webpack 5 runtime, with the context path of its chunks.
    Webpack5 { context_path: String },
    /// Not a webpack runtime.
    NoRuntime,
}

/// Mathematical view of a webpack runtime.
pub enum WebpackRuntimeV {
    Webpack5 { context_path: Seq<char> },
    NoRuntime,
}

impl View for WebpackRuntime {
    type V = WebpackRuntimeV;

    open spec fn view(&self) -> WebpackRuntimeV {
        match self {
            WebpackRuntime::Webpack5 { context_path } => WebpackRuntimeV::Webpack5 {
                context_path: context_path@,
            },
            WebpackRuntime::NoRuntime => WebpackRuntimeV::NoRuntime,
        }
    }
}

/// A static ESM edge: an import, an `export .. from`, an `export *`, or a
/// resolved dynamic import.
#[derive(Debug)]
pub struct EsmAssetReference {
    pub source: String,
    pub request: Request,
    pub from_typescript: bool,
}

/// A CommonJS edge: `require`, `require.resolve`, or a child process
/// running a script.
#[derive(Debug)]
pub struct CjsAssetReference {
    pub source: String,
    pub request: Request,
    pub from_typescript: bool,
}

/// A raw path edge from file-system or path calls; resolved without module
/// semantics.
#[derive(Debug)]
pub struct SourceAssetReference {
    pub source: String,
    pub path: Pattern,
}

/// The `package.json` that governs the module.
#[derive(Debug)]
pub struct PackageJsonReference {
    pub package_json: String,
}

/// The `tsconfig.json` that governs a TypeScript module.
#[derive(Debug)]
pub struct TsConfigReference {
    pub tsconfig: String,
}

/// A `/// <reference path=".." />` directive.
#[derive(Debug)]
pub struct TsReferencePathAssetReference {
    pub source: String,
    pub path: String,
}

/// A `/// <reference types=".." />` directive.
#[derive(Debug)]
pub struct TsReferenceTypeAssetReference {
    pub source: String,
    pub module: String,
}

/// The webpack runtime blob a module loads.
#[derive(Debug)]
pub struct WebpackRuntimeAssetReference {
    pub source: String,
    pub request: Request,
    pub runtime: WebpackRuntime,
}

/// The module itself, as a webpack entry.
#[derive(Debug)]
pub struct WebpackEntryAssetReference {
    pub source: String,
    pub runtime: WebpackRuntime,
}

/// One chunk loaded through the webpack runtime.
#[derive(Debug)]
pub struct WebpackChunkAssetReference {
    pub chunk_id: crate::value::JsConst,
    pub runtime: WebpackRuntime,
}

/// Any reference record the analysis can emit.
#[derive(Debug)]
pub enum AssetReference {
    Esm(EsmAssetReference),
    Cjs(CjsAssetReference),
    Source(SourceAssetReference),
    PackageJson(PackageJsonReference),
    TsConfig(TsConfigReference),
    TsReferencePath(TsReferencePathAssetReference),
    TsReferenceType(TsReferenceTypeAssetReference),
    WebpackRuntime(WebpackRuntimeAssetReference),
    WebpackEntry(WebpackEntryAssetReference),
    WebpackChunk(WebpackChunkAssetReference),
}

/// Mathematical view of a reference record.
pub enum RefV {
    Esm { source: Seq<char>, request: PatternV, from_typescript: bool },
    Cjs { source: Seq<char>, request: PatternV, from_typescript: bool },
    Source { source: Seq<char>, path: PatternV },
    PackageJson { package_json: Seq<char> },
    TsConfig { tsconfig: Seq<char> },
    TsReferencePath { source: Seq<char>, path: Seq<char> },
    TsReferenceType { source: Seq<char>, module_name: Seq<char> },
    WebpackRuntime { source: Seq<char>, request: PatternV, runtime: WebpackRuntimeV },
    WebpackEntry { source: Seq<char>, runtime: WebpackRuntimeV },
    WebpackChunk { chunk_id: crate::value::ConstV, runtime: WebpackRuntimeV },
}

impl View for AssetReference {
    type V = RefV;

    open spec fn view(&self) -> RefV {
        match self {
            AssetReference::Esm(r) => RefV::Esm {
                source: r.source@,
                request: r.request.request@,
                from_typescript: r.from_typescript,
            },
            AssetReference::Cjs(r) => RefV::Cjs {
                source: r.source@,
                request: r.request.request@,
                from_typescript: r.from_typescript,
            },
            AssetReference::Source(r) => RefV::Source { source: r.source@, path: r.path@ },
            AssetReference::PackageJson(r) => RefV::PackageJson {
                package_json: r.package_json@,
            },
            AssetReference::TsConfig(r) => RefV::TsConfig { tsconfig: r.tsconfig@ },
            AssetReference::TsReferencePath(r) => RefV::TsReferencePath {
                source: r.source@,
                path: r.path@,
            },
            AssetReference::TsReferenceType(r) => RefV::TsReferenceType {
                source: r.source@,
                module_name: r.module@,
            },
            AssetReference::WebpackRuntime(r) => RefV::WebpackRuntime {
                source: r.source@,
                request: r.request.request@,
                runtime: r.runtime@,
            },
            AssetReference::WebpackEntry(r) => RefV::WebpackEntry {
                source: r.source@,
                runtime: r.runtime@,
            },
            AssetReference::WebpackChunk(r) => RefV::WebpackChunk {
                chunk_id: r.chunk_id@,
                runtime: r.runtime@,
            },
        }
    }
}

/// The views of a sequence of references, elementwise.
pub open spec fn ref_views(rs: Seq<AssetReference>) -> Seq<RefV>
    decreases rs,
{
    if rs.len() == 0 {
        Seq::empty()
    } else {
        seq![rs.first()@] + ref_views(rs.drop_first())
    }
}

/// `ref_views` maps the view elementwise.
pub proof fn lemma_ref_views(rs: Seq<AssetReference>)
    ensures
        ref_views(rs).len() == rs.len(),
        forall|i: int| 0 <= i < rs.len() ==> ref_views(rs)[i] == #[trigger] rs[i]@,
    decreases rs.len(),
{
    if rs.len() > 0 {
        lemma_ref_views(rs.drop_first());
        assert forall|i: int| 0 <= i < rs.len() implies ref_views(rs)[i]
            == #[trigger] rs[i]@ by {
            if i > 0 {
                assert(ref_views(rs)[i] == ref_views(rs.drop_first())[i - 1]);
                assert(rs.drop_first()[i - 1] == rs[i]);
            }
        }
    }
}

/// Appending one reference appends its view.
pub proof fn lemma_ref_views_push(rs: Seq<AssetReference>, r: AssetReference)
    ensures
        ref_views(rs.push(r)) == ref_views(rs).push(r@),
{
    lemma_ref_views(rs.push(r));
    lemma_ref_views(rs);
    assert forall|i: int| 0 <= i < rs.len() + 1 implies ref_views(rs.push(r))[i]
        == ref_views(rs).push(r@)[i] by {
        if i < rs.len() {
            assert(rs.push(r)[i] == rs[i]);
            assert(ref_views(rs.push(r))[i] == rs.push(r)[i]@);
            assert(ref_views(rs)[i] == rs[i]@);
            assert(ref_views(rs).push(r@)[i] == ref_views(rs)[i]);
        } else {
            assert(rs.push(r)[i] == r);
            assert(ref_views(rs.push(r))[i] == rs.push(r)[i]@);
            assert(ref_views(rs).push(r@)[i] == r@);
        }
    }
    assert(ref_views(rs.push(r)) =~= ref_views(rs).push(r@));
}

/// The decimal digits of a natural number.
pub open spec fn dec_chars(n: nat) -> Seq<char>
    decreases n,
{
    if n < 10 {
        seq![digit_char(n)]
    } else {
        dec_chars(n / 10) + seq![digit_char(n % 10)]
    }
}

/// The character of one decimal digit.
pub open spec fn digit_char(d: nat) -> char {
    if d == 0 {
        '0'
    } else if d == 1 {
        '1'
    } else if d == 2 {
        '2'
    } else if d == 3 {
        '3'
    } else if d == 4 {
        '4'
    } else if d == 5 {
        '5'
    } else if d == 6 {
        '6'
    } else if d == 7 {
        '7'
    } else if d == 8 {
        '8'
    } else {
        '9'
    }
}

/// The text of one decimal digit.
fn digit_text(d: u64) -> (r: &'static str)
    requires
        d < 10,
    ensures
        r@ == seq![digit_char(d as nat)],
{
    proof {
        reveal_strlit("0");
        reveal_strlit("1");
        reveal_strlit("2");
        reveal_strlit("3");
        reveal_strlit("4");
        reveal_strlit("5");
        reveal_strlit("6");
        reveal_strlit("7");
        reveal_strlit("8");
        reveal_strlit("9");
    }
    let r: &'static str = if d == 0 {
        "0"
    } else if d == 1 {
        "1"
    } else if d == 2 {
        "2"
    } else if d == 3 {
        "3"
    } else if d == 4 {
        "4"
    } else if d == 5 {
        "5"
    } else if d == 6 {
        "6"
    } else if d == 7 {
        "7"
    } else if d == 8 {
        "8"
    } else {
        "9"
    };
    proof {
        assert(r@ =~= seq![digit_char(d as nat)]);
    }
    r
}

/// Format a natural number in decimal.
pub fn u64_to_string(n: u64) -> (r: String)
    ensures
        r@ == dec_chars(n as nat),
    decreases n,
{
    let d: u64 = n % 10;
    if n < 10 {
        let mut s = String::new();
        s.append(digit_text(d));
        proof {
            assert(s@ =~= seq![digit_char(n as nat)]);
        }
        s
    } else {
        let mut s = u64_to_string(n / 10);
        s.append(digit_text(d));
        proof {
            assert(s@ =~= dec_chars((n / 10) as nat) + seq![digit_char((n % 10) as nat)]);
        }
        s
    }
}

/// The decimal text of a signed integer.
pub open spec fn int_chars(n: int) -> Seq<char> {
    if n < 0 {
        seq!['-'] + dec_chars((-n) as nat)
    } else {
        dec_chars(n as nat)
    }
}

/// Format a signed integer in decimal.
pub fn i64_to_string(n: i64) -> (r: String)
    ensures
        r@ == int_chars(n as int),
{
    if n < 0 {
        let m: u64 = ((-(n + 1)) as u64) + 1;
        proof {
            assert(m as int == -(n as int));
        }
        let mut s = String::from_str("-");
        proof {
            reveal_strlit("-");
        }
        let tail = u64_to_string(m);
        s.append(tail.as_str());
        proof {
            assert(s@ =~= seq!['-'] + dec_chars((-(n as int)) as nat));
        }
        s
    } else {
        u64_to_string(n as u64)
    }
}

/// `ref_views` distributes over concatenation.
pub proof fn lemma_ref_views_concat(a: Seq<AssetReference>, b: Seq<AssetReference>)
    ensures
        ref_views(a + b) == ref_views(a) + ref_views(b),
{
    lemma_ref_views(a);
    lemma_ref_views(b);
    lemma_ref_views(a + b);
    assert forall|i: int| 0 <= i < (a + b).len() implies ref_views(a + b)[i] == (ref_views(a)
        + ref_views(b))[i] by {
        assert(ref_views(a + b)[i] == (a + b)[i]@);
        if i < a.len() {
            assert((a + b)[i] == a[i]);
            assert(ref_views(a)[i] == a[i]@);
            assert((ref_views(a) + ref_views(b))[i] == ref_views(a)[i]);
        } else {
            assert((a + b)[i] == b[i - a.len()]);
            assert(ref_views(b)[i - a.len()] == b[i - a.len()]@);
            assert((ref_views(a) + ref_views(b))[i] == ref_views(b)[i - a.len()]);
        }
    }
    assert(ref_views(a + b) =~= ref_views(a) + ref_views(b));
}

/// What the external resolver should do for one reference record.
#[derive(Debug)]
pub enum ResolvePlan {
    /// Resolve the request with ESM semantics against the source's
    /// directory, with TypeScript options where the edge came from
    /// TypeScript.
    Esm { source: String, request: Request, typescript: bool },
    /// Resolve the request with CommonJS semantics.
    Cjs { source: String, request: Request, typescript: bool },
    /// Glob-style raw resolution of the pattern against the source's
    /// directory, without module semantics.
    Raw { source: String, path: Pattern },
    /// A single asset at a known path.
    SingleAsset { path: String },
    /// A single asset at a known path, wrapped as a TypeScript
    /// configuration module.
    TsConfigAsset { path: String },
    /// Resolve with CommonJS options and wrap the result as a webpack
    /// module.
    WebpackModule { source: String, request: Request },
    /// Resolve the bare module with TypeScript types options.
    TsTypes { source: String, module_name: String },
    /// Join the literal path against the source's directory.
    JoinPath { source: String, path: String },
    /// The reference cannot be resolved.
    Unresolveable,
}

impl EsmAssetReference {
    /// The resolve plan of a static ESM edge.
    pub fn resolve_reference(&self) -> (r: ResolvePlan)
        ensures
            r matches ResolvePlan::Esm { source, request, typescript } && source@
                == self.source@ && request@.request == self.request@.request && typescript
                == self.from_typescript,
    {
        ResolvePlan::Esm {
            source: self.source.clone(),
            request: Request { request: dup_pattern(&self.request.request) },
            typescript: self.from_typescript,
        }
    }
}

impl CjsAssetReference {
    /// The resolve plan of a CommonJS edge.
    pub fn resolve_reference(&self) -> (r: ResolvePlan)
        ensures
            r matches ResolvePlan::Cjs { source, request, typescript } && source@
                == self.source@ && request@.request == self.request@.request && typescript
                == self.from_typescript,
    {
        ResolvePlan::Cjs {
            source: self.source.clone(),
            request: Request { request: dup_pattern(&self.request.request) },
            typescript: self.from_typescript,
        }
    }
}

impl SourceAssetReference {
    /// The resolve plan of a raw path edge.
    pub fn resolve_reference(&self) -> (r: ResolvePlan)
        ensures
            r matches ResolvePlan::Raw { source, path } && source@ == self.source@ && path@
                == self.path@,
    {
        ResolvePlan::Raw { source: self.source.clone(), path: dup_pattern(&self.path) }
    }
}

impl PackageJsonReference {
    /// The resolve plan of the `package.json` edge: the file itself.
    pub fn resolve_reference(&self) -> (r: ResolvePlan)
        ensures
            r matches ResolvePlan::SingleAsset { path } && path@ == self.package_json@,
    {
        ResolvePlan::SingleAsset { path: self.package_json.clone() }
    }
}

impl TsConfigReference {
    /// The resolve plan of the `tsconfig.json` edge: the file, wrapped as
    /// a TypeScript configuration module.
    pub fn resolve_reference(&self) -> (r: ResolvePlan)
        ensures
            r matches ResolvePlan::TsConfigAsset { path } && path@ == self.tsconfig@,
    {
        ResolvePlan::TsConfigAsset { path: self.tsconfig.clone() }
    }
}

impl TsReferencePathAssetReference {
    /// The resolve plan of a `reference path` directive: join the literal
    /// against the source's directory.
    pub fn resolve_reference(&self) -> (r: ResolvePlan)
        ensures
            r matches ResolvePlan::JoinPath { source, path } && source@ == self.source@
                && path@ == self.path@,
    {
        ResolvePlan::JoinPath { source: self.source.clone(), path: self.path.clone() }
    }

    /// Decide on the host's answer to the plan: a successful join gives a
    /// single module asset at the joined path; a failed join leaves the
    /// reference unresolvable.
    pub fn resolve_joined(&self, joined: &Option<String>) -> (r: ResolvePlan)
        ensures
            joined matches Some(p) ==> r matches ResolvePlan::SingleAsset { path } && path@
                == p@,
            joined is None ==> r is Unresolveable,
    {
        match joined {
            Some(p) => ResolvePlan::SingleAsset { path: p.clone() },
            None => ResolvePlan::Unresolveable,
        }
    }
}

impl TsReferenceTypeAssetReference {
    /// The resolve plan of a `reference types` directive: resolve the bare
    /// module with TypeScript types options.
    pub fn resolve_reference(&self) -> (r: ResolvePlan)
        ensures
            r matches ResolvePlan::TsTypes { source, module_name } && source@ == self.source@
                && module_name@ == self.module@,
    {
        ResolvePlan::TsTypes {
            source: self.source.clone(),
            module_name: self.module.clone(),
        }
    }
}

impl WebpackRuntimeAssetReference {
    /// The resolve plan of the runtime edge: resolve with CommonJS options
    /// and wrap the result as a webpack module.
    pub fn resolve_reference(&self) -> (r: ResolvePlan)
        ensures
            r matches ResolvePlan::WebpackModule { source, request } && source@
                == self.source@ && request@.request == self.request@.request,
    {
        ResolvePlan::WebpackModule {
            source: self.source.clone(),
            request: Request { request: dup_pattern(&self.request.request) },
        }
    }

    /// Decide on the host's answer to the plan: a single asset is wrapped
    /// as a webpack module at its path; any other answer leaves the
    /// reference unresolvable.
    pub fn wrap_resolved(&self, answer: &crate::host::CjsAnswer) -> (r: ResolvePlan)
        ensures
            answer@ matches crate::host::CjsAnswerV::Single(p) ==> r matches
                ResolvePlan::SingleAsset { path } && path@ == p,
            !(answer@ is Single) ==> r is Unresolveable,
    {
        match answer {
            crate::host::CjsAnswer::Single(p) => ResolvePlan::SingleAsset {
                path: p.clone(),
            },
            _ => ResolvePlan::Unresolveable,
        }
    }
}

impl WebpackEntryAssetReference {
    /// The resolve plan of the entry edge: the owning source itself,
    /// wrapped as a webpack module.
    pub fn resolve_reference(&self) -> (r: ResolvePlan)
        ensures
            r matches ResolvePlan::SingleAsset { path } && path@ == self.source@,
    {
        ResolvePlan::SingleAsset { path: self.source.clone() }
    }
}

/// The text of a chunk id: the string itself, or the decimal digits of a
/// number.
pub open spec fn chunk_id_chars(c: crate::value::ConstV) -> Seq<char>
    recommends
        c is Str || c is Num,
{
    match c {
        crate::value::ConstV::Str(s) => s,
        crate::value::ConstV::Num(n) => int_chars(n as int),
        _ => Seq::empty(),
    }
}

/// The chunk file path under the runtime's context directory.
pub open spec fn chunk_path(context: Seq<char>, id: Seq<char>) -> Seq<char> {
    context + "/chunks/"@ + id + ".js"@
}

impl WebpackChunkAssetReference {
    /// The resolve plan of a chunk edge: with a webpack 5 runtime, the
    /// chunk file `./chunks/<id>.js` under the runtime's context path;
    /// without one, unresolvable. Chunk ids are strings or numbers.
    pub fn resolve_reference(&self) -> (r: ResolvePlan)
        requires
            self.chunk_id@ is Str || self.chunk_id@ is Num,
        ensures
            self.runtime@ matches WebpackRuntimeV::Webpack5 { context_path } ==> r matches
                ResolvePlan::SingleAsset { path } && path@ == chunk_path(
                context_path,
                chunk_id_chars(self.chunk_id@),
            ),
            self.runtime@ is NoRuntime ==> r is Unresolveable,
    {
        match &self.runtime {
            WebpackRuntime::Webpack5 { context_path } => {
                let id: String = match &self.chunk_id {
                    crate::value::JsConst::Str(s) => s.clone(),
                    crate::value::JsConst::Num(n) => i64_to_string(*n),
                    _ => {
                        proof {
                            assert(false);
                        }
                        String::new()
                    },
                };
                let mut path = context_path.clone();
                path.append("/chunks/");
                path.append(id.as_str());
                path.append(".js");
                ResolvePlan::SingleAsset { path }
            },
            WebpackRuntime::NoRuntime => ResolvePlan::Unresolveable,
        }
    }
}

} // verus!
