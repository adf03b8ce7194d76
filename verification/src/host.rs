//! Plain-value answers from the host.
//!
//! The engine itself never touches the file system or the module resolver:
//! the surrounding program answers those questions ahead of time and hands
//! the answers in as plain values. The analysis is then a pure function.

use vstd::prelude::*;
use crate::pattern::{Pattern, PatternV, pat_list, lemma_pat_list, eq_pattern};
use crate::refs::{WebpackRuntime, WebpackRuntimeV};

verus! {

broadcast use vstd::std_specs::vec::group_vec_axioms, vstd::seq::group_seq_axioms;

/// What the CommonJS resolver answered for one request pattern.
#[derive(Debug)]
pub enum CjsAnswer {
    /// One asset, by its project-relative path.
    Single(String),
    /// Several candidate assets.
    Several(Vec<String>),
    /// The request cannot be resolved.
    Unresolveable,
}

/// Mathematical view of a resolver answer.
pub enum CjsAnswerV {
    Single(Seq<char>),
    Several(Seq<Seq<char>>),
    Unresolveable,
}

impl View for CjsAnswer {
    type V = CjsAnswerV;

    open spec fn view(&self) -> CjsAnswerV {
        match self {
            CjsAnswer::Single(s) => CjsAnswerV::Single(s@),
            CjsAnswer::Several(ss) => CjsAnswerV::Several(
                Seq::new(ss@.len(), |i: int| ss@[i]@),
            ),
            CjsAnswer::Unresolveable => CjsAnswerV::Unresolveable,
        }
    }
}

/// One row of the resolver table: a request pattern and its answer.
#[derive(Debug)]
pub struct ResolveEntry {
    pub pattern: Pattern,
    pub answer: CjsAnswer,
}

/// Answers of the host, queried before the analysis runs.
#[derive(Debug)]
pub struct HostAnswers {
    /// Project-relative path of the module under analysis.
    pub source_path: String,
    /// Project-relative path of the module's parent directory.
    pub source_dir: String,
    /// Answers of the CommonJS resolver, keyed by request pattern.
    pub resolve: Vec<ResolveEntry>,
    /// The nearest `package.json`, if the host found one.
    pub package_json: Option<String>,
    /// The nearest `tsconfig.json`, if the host found one.
    pub tsconfig: Option<String>,
    /// Webpack runtime detection, keyed by the literal request.
    pub webpack: Vec<(String, WebpackRuntime)>,
}

/// Mathematical view of the host answers.
pub struct HostV {
    pub source_path: Seq<char>,
    pub source_dir: Seq<char>,
    pub resolve: Seq<(PatternV, CjsAnswerV)>,
    pub package_json: Option<Seq<char>>,
    pub tsconfig: Option<Seq<char>>,
    pub webpack: Seq<(Seq<char>, WebpackRuntimeV)>,
}

impl View for HostAnswers {
    type V = HostV;

    open spec fn view(&self) -> HostV {
        HostV {
            source_path: self.source_path@,
            source_dir: self.source_dir@,
            resolve: Seq::new(
                self.resolve@.len(),
                |i: int| (self.resolve@[i].pattern@, self.resolve@[i].answer@),
            ),
            package_json: match self.package_json {
                Some(p) => Some(p@),
                None => None,
            },
            tsconfig: match self.tsconfig {
                Some(p) => Some(p@),
                None => None,
            },
            webpack: Seq::new(
                self.webpack@.len(),
                |i: int| (self.webpack@[i].0@, self.webpack@[i].1@),
            ),
        }
    }
}

/// The webpack answer the table gives for a request: the first row whose
/// request is equal, or no runtime where none matches.
pub open spec fn lookup_webpack(rows: Seq<(Seq<char>, WebpackRuntimeV)>, req: Seq<char>)
    -> WebpackRuntimeV
    decreases rows,
{
    if rows.len() == 0 {
        WebpackRuntimeV::NoRuntime
    } else if rows.first().0 == req {
        rows.first().1
    } else {
        lookup_webpack(rows.drop_first(), req)
    }
}

/// The answer the table gives for a pattern: the first row whose pattern is
/// equal, or `Unresolveable` where no row matches.
pub open spec fn lookup_resolve(rows: Seq<(PatternV, CjsAnswerV)>, p: PatternV) -> CjsAnswerV
    decreases rows,
{
    if rows.len() == 0 {
        CjsAnswerV::Unresolveable
    } else if rows.first().0 == p {
        rows.first().1
    } else {
        lookup_resolve(rows.drop_first(), p)
    }
}

impl HostAnswers {
    /// Look the pattern up in the resolver table.
    pub fn resolve_pattern(&self, p: &Pattern) -> (r: &CjsAnswer)
        ensures
            r@ == lookup_resolve(self@.resolve, p@),
    {
        proof {
            assert(self@.resolve.skip(0) =~= self@.resolve);
        }
        let mut i: usize = 0;
        while i < self.resolve.len()
            invariant
                i <= self.resolve@.len(),
                forall|j: int| 0 <= j < i ==> (#[trigger] self.resolve@[j]).pattern@ != p@,
                lookup_from(self@.resolve, p@, i as int) == lookup_resolve(self@.resolve, p@),
                self@.resolve.len() == self.resolve@.len(),
                forall|j: int| 0 <= j < self.resolve@.len() ==> #[trigger] self@.resolve[j] == (
                    self.resolve@[j].pattern@,
                    self.resolve@[j].answer@,
                ),
            decreases self.resolve@.len() - i,
        {
            if eq_pattern(&self.resolve[i].pattern, p) {
                proof {
                    lemma_lookup_from_hit(self@.resolve, p@, i as int);
                }
                return &self.resolve[i].answer;
            }
            proof {
                lemma_lookup_from_step(self@.resolve, p@, i as int);
            }
            i += 1;
        }
        proof {
            lemma_lookup_from_end(self@.resolve, p@);
        }
        &UNRESOLVEABLE
    }
}

/// A shared `Unresolveable` answer to return where no row matches.
pub const UNRESOLVEABLE: CjsAnswer = CjsAnswer::Unresolveable;

/// `lookup_resolve` restarted at row `i`.
pub open spec fn lookup_from(rows: Seq<(PatternV, CjsAnswerV)>, p: PatternV, i: int) -> CjsAnswerV {
    lookup_resolve(rows.skip(i), p)
}

/// A matching row at `i` with no earlier match settles the lookup.
proof fn lemma_lookup_from_hit(rows: Seq<(PatternV, CjsAnswerV)>, p: PatternV, i: int)
    requires
        0 <= i < rows.len(),
        rows[i].0 == p,
        lookup_from(rows, p, i) == lookup_resolve(rows, p),
    ensures
        lookup_resolve(rows, p) == rows[i].1,
{
    assert(rows.skip(i).first() == rows[i]);
}

/// A non-matching row at `i` passes the lookup on to `i + 1`.
proof fn lemma_lookup_from_step(rows: Seq<(PatternV, CjsAnswerV)>, p: PatternV, i: int)
    requires
        0 <= i < rows.len(),
        rows[i].0 != p,
    ensures
        lookup_from(rows, p, i) == lookup_from(rows, p, i + 1),
{
    assert(rows.skip(i).first() == rows[i]);
    assert(rows.skip(i).drop_first() =~= rows.skip(i + 1));
}

/// Past the last row the lookup is `Unresolveable`.
proof fn lemma_lookup_from_end(rows: Seq<(PatternV, CjsAnswerV)>, p: PatternV)
    ensures
        lookup_from(rows, p, rows.len() as int) == CjsAnswerV::Unresolveable,
{
    assert(rows.skip(rows.len() as int) =~= Seq::<(PatternV, CjsAnswerV)>::empty());
}

/// A shared answer to return where no webpack row matches.
pub const NO_RUNTIME: WebpackRuntime = WebpackRuntime::NoRuntime;

/// `lookup_webpack` restarted at row `i`.
pub open spec fn lookup_webpack_from(rows: Seq<(Seq<char>, WebpackRuntimeV)>, req: Seq<char>,
    i: int) -> WebpackRuntimeV {
    lookup_webpack(rows.skip(i), req)
}

impl HostAnswers {
    /// Look a webpack runtime request up in the table.
    pub fn resolve_webpack(&self, req: &String) -> (r: &WebpackRuntime)
        ensures
            r@ == lookup_webpack(self@.webpack, req@),
    {
        proof {
            assert(self@.webpack.skip(0) =~= self@.webpack);
        }
        let mut i: usize = 0;
        while i < self.webpack.len()
            invariant
                i <= self.webpack@.len(),
                lookup_webpack_from(self@.webpack, req@, i as int) == lookup_webpack(
                    self@.webpack,
                    req@,
                ),
                self@.webpack.len() == self.webpack@.len(),
                forall|j: int| 0 <= j < self.webpack@.len() ==> #[trigger] self@.webpack[j]
                    == (self.webpack@[j].0@, self.webpack@[j].1@),
            decreases self.webpack@.len() - i,
        {
            proof {
                assert(self@.webpack.skip(i as int).first() == self@.webpack[i as int]);
                assert(self@.webpack.skip(i as int).drop_first() =~= self@.webpack.skip(
                    i as int + 1,
                ));
            }
            if self.webpack[i].0.eq(req) {
                return &self.webpack[i].1;
            }
            i += 1;
        }
        proof {
            assert(self@.webpack.skip(self@.webpack.len() as int) =~= Seq::<
                (Seq<char>, WebpackRuntimeV),
            >::empty());
        }
        &NO_RUNTIME
    }
}

} // verus!
