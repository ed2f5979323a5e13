//! The decisions of the transform: whether a module gets the runtime import,
//! and which functions get the runtime hook prepended to their body.
use vstd::prelude::*;

use crate::plan::{ComponentPlan, ComponentPlanView, PluginConfig, Span, TransformPlan};
use crate::runtime_ast::{
    Ident, UseRelyzerDecl, UseRelyzerImport, copy_ident, make_use_relyzer_decl,
    make_use_relyzer_import, metadata_props, private_ident, props_view,
};
use crate::source::opt_string_view;

verus! {

/// The transform's state: its configuration, its plan, and the local name
/// of the runtime hook once the module imports it.
pub struct RelyzerTransform {
    pub config: PluginConfig,
    pub plan: TransformPlan,
    pub runtime_ident: Option<Ident>,
}

pub open spec fn ident_name(i: Option<Ident>) -> Option<Seq<char>> {
    match i {
        Some(x) => Some(x.sym@),
        None => None,
    }
}

/// Ensuring the runtime import, from the local name of the hook so far: the
/// name afterwards, and whether an import is inserted.
pub open spec fn ensure_step(name: Option<Seq<char>>) -> (Option<Seq<char>>, bool) {
    match name {
        Some(n) => (Some(n), false),
        None => (Some("_useRelyzer"@), true),
    }
}

/// The index of the first plan at or after `from` for a component with this
/// span, or -1.
pub open spec fn plan_index_for(plans: Seq<ComponentPlanView>, span: Span, from: int) -> int
    decreases plans.len() - from,
{
    if from < 0 || from >= plans.len() {
        -1
    } else if plans[from].component_span == span {
        from
    } else {
        plan_index_for(plans, span, from + 1)
    }
}

impl RelyzerTransform {
    pub fn new(config: PluginConfig, plan: TransformPlan) -> (r: Self)
        ensures
            r.config == config,
            r.plan == plan,
            r.runtime_ident is None,
    {
        RelyzerTransform { config, plan, runtime_ident: None }
    }

    /// The plan for the component with this span, the first one if several.
    pub fn component_plan_for_span(&self, span: Span) -> (r: Option<&ComponentPlan>)
        ensures
            r matches Some(p) ==> {
                let i = plan_index_for(self.plan@.components, span, 0);
                &&& 0 <= i < self.plan.components.len()
                &&& p@ == self.plan@.components[i]
            },
            r is None ==> plan_index_for(self.plan@.components, span, 0) == -1,
    {
        let ghost plans = self.plan@.components;
        let mut i: usize = 0;
        while i < self.plan.components.len()
            invariant
                plans == self.plan@.components,
                plans.len() == self.plan.components.len(),
                i <= self.plan.components.len(),
                plan_index_for(plans, span, 0) == plan_index_for(plans, span, i as int),
            decreases self.plan.components.len() - i,
        {
            assert(plans[i as int] == self.plan.components@[i as int]@);
            if self.plan.components[i].component_span == span {
                return Some(&self.plan.components[i]);
            }
            i = i + 1;
        }
        None
    }

    /// A module gets the runtime import when the plan asks for it or has a
    /// component.
    pub fn should_import_runtime(&self) -> (r: bool)
        ensures
            r == (self.plan.import_runtime || self.plan.components.len() > 0),
    {
        self.plan.import_runtime || self.plan.components.len() > 0
    }

    /// The import to insert at the start of the module, the first time only;
    /// its local name becomes the hook's name.
    pub fn ensure_runtime_import(&mut self) -> (r: Option<UseRelyzerImport>)
        ensures
            (ident_name(final(self).runtime_ident), r is Some) == ensure_step(ident_name(old(self).runtime_ident)),
            r matches Some(imp) ==> imp.local.sym@ == "_useRelyzer"@ && imp.imported@ == "useRelyzer"@
                && imp.source@ == "@relyzer/runtime"@,
            final(self).plan == old(self).plan,
            final(self).config == old(self).config,
    {
        if self.runtime_ident.is_some() {
            return None;
        }
        let local = private_ident("_useRelyzer");
        self.runtime_ident = Some(copy_ident(&local));
        Some(make_use_relyzer_import(local))
    }

    /// The declaration to prepend to the body of the function with this span:
    /// there is one when the function is a planned component and the module
    /// imports the hook.
    pub fn injection_for(&self, span: Span) -> (r: Option<UseRelyzerDecl>)
        ensures
            r is Some <==> (plan_index_for(self.plan@.components, span, 0) != -1
                && self.runtime_ident is Some),
            r matches Some(d) ==> {
                let p = self.plan@.components[plan_index_for(self.plan@.components, span, 0)];
                &&& d.perf_ident.sym@ == "_p"@
                &&& Some(d.runtime_ident.sym@) == ident_name(self.runtime_ident)
                &&& props_view(d.metadata.props@) == metadata_props(p.code, p.loc, p.should_detect_call_stack)
            },
    {
        match (self.component_plan_for_span(span), &self.runtime_ident) {
            (Some(plan), Some(runtime_ident)) => {
                let perf_ident = private_ident("_p");
                Some(make_use_relyzer_decl(runtime_ident, &perf_ident, plan))
            },
            _ => None,
        }
    }
}

/// Ensuring the runtime import twice inserts it once: the second time finds
/// the hook's name in place.
pub proof fn law_runtime_import_once(name: Option<Seq<char>>)
    ensures
        !ensure_step(ensure_step(name).0).1,
        ensure_step(ensure_step(name).0).0 == ensure_step(name).0,
{
}

} // verus!
