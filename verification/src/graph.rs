//! The variable graph: binding values and the ordered list of effects.

use vstd::prelude::*;
use crate::value::{JsValue, JsValueV, deep_list, lemma_deep_list};

verus! {

broadcast use vstd::std_specs::vec::group_vec_axioms, vstd::seq::group_seq_axioms;

/// A source location, used to report diagnostics and to suppress effects.
#[derive(Debug, Clone, Copy, PartialEq, Eq, Structural)]
pub struct Span {
    pub lo: u32,
    pub hi: u32,
}

/// A call or member call captured in evaluation order.
#[derive(Debug)]
pub enum Effect {
    /// A plain call.
    Call { func: JsValue, args: Vec<JsValue>, span: Span },
    /// A call of a property of an object.
    MemberCall { obj: JsValue, prop: JsValue, args: Vec<JsValue>, span: Span },
}

/// Mathematical view of an effect.
pub enum EffectV {
    Call { func: JsValueV, args: Seq<JsValueV>, span: Span },
    MemberCall { obj: JsValueV, prop: JsValueV, args: Seq<JsValueV>, span: Span },
}

impl View for Effect {
    type V = EffectV;

    open spec fn view(&self) -> EffectV {
        match self {
            Effect::Call { func, args, span } => EffectV::Call {
                func: func.deep(),
                args: deep_list(args@),
                span: *span,
            },
            Effect::MemberCall { obj, prop, args, span } => EffectV::MemberCall {
                obj: obj.deep(),
                prop: prop.deep(),
                args: deep_list(args@),
                span: *span,
            },
        }
    }
}

/// The views of a sequence of effects, elementwise.
pub open spec fn effect_views(es: Seq<Effect>) -> Seq<EffectV>
    decreases es,
{
    if es.len() == 0 {
        Seq::empty()
    } else {
        seq![es.first()@] + effect_views(es.drop_first())
    }
}

/// `effect_views` maps the view elementwise.
pub proof fn lemma_effect_views(es: Seq<Effect>)
    ensures
        effect_views(es).len() == es.len(),
        forall|i: int| 0 <= i < es.len() ==> effect_views(es)[i] == #[trigger] es[i]@,
    decreases es.len(),
{
    if es.len() > 0 {
        lemma_effect_views(es.drop_first());
        assert forall|i: int| 0 <= i < es.len() implies effect_views(es)[i]
            == #[trigger] es[i]@ by {
            if i > 0 {
                assert(effect_views(es)[i] == effect_views(es.drop_first())[i - 1]);
                assert(es.drop_first()[i - 1] == es[i]);
            }
        }
    }
}

/// The variable graph of one module: the value of each binding, indexed by
/// binding id, and the effects in source order.
#[derive(Debug)]
pub struct VarGraph {
    pub values: Vec<JsValue>,
    pub effects: Vec<Effect>,
}

/// Mathematical view of a variable graph.
pub struct VarGraphV {
    pub values: Seq<JsValueV>,
    pub effects: Seq<EffectV>,
}

impl View for VarGraph {
    type V = VarGraphV;

    open spec fn view(&self) -> VarGraphV {
        VarGraphV { values: deep_list(self.values@), effects: effect_views(self.effects@) }
    }
}

/// Appending one effect appends its view.
pub proof fn lemma_effect_views_push(es: Seq<Effect>, e: Effect)
    ensures
        effect_views(es.push(e)) == effect_views(es).push(e@),
{
    lemma_effect_views(es.push(e));
    lemma_effect_views(es);
    assert forall|i: int| 0 <= i < es.len() + 1 implies effect_views(es.push(e))[i]
        == effect_views(es).push(e@)[i] by {
        if i < es.len() {
            assert(es.push(e)[i] == es[i]);
            assert(effect_views(es.push(e))[i] == es.push(e)[i]@);
            assert(effect_views(es)[i] == es[i]@);
            assert(effect_views(es).push(e@)[i] == effect_views(es)[i]);
        } else {
            assert(es.push(e)[i] == e);
            assert(effect_views(es.push(e))[i] == es.push(e)[i]@);
            assert(effect_views(es).push(e@)[i] == e@);
        }
    }
    assert(effect_views(es.push(e)) =~= effect_views(es).push(e@));
}

} // verus!
