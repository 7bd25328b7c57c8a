//! Lowering of the kind-specific parts of usages.

use crate::ast::{
    Name, TargetRef, Identification, Expr, ValuePart, FeatureDeclaration, ConnectorEnd, PayloadPart,
    Trigger, UsageDetail, Usage,
};
use crate::names::Binding;
use crate::lower_util::{preceding, last_index, satisfaction_membership};
use crate::shape;
use crate::state::{Builder, PendingRef};
use crate::syntax::name_or;
use crate::tables::{trigger_kind, direction};
use crate::text::{numbered_seg, str_eq};
use std::rc::Rc;
use vstd::prelude::*;

verus! {

impl Builder {
    /// One connector end: a referential end feature and what it connects.
    pub fn emit_connector_end(
        &mut self,
        end: &ConnectorEnd,
        parent: usize,
        scope: usize,
        i: usize,
    ) -> (r: usize)
        requires
            old(self)@.wf(),
            parent < old(self)@.n(),
            scope < old(self)@.ns(),
        ensures
            (final(self)@, r) == shape::emit_connector_end(old(self)@, *end, parent, scope, i),
            final(self)@.wf(),
            final(self)@.n() >= old(self)@.n(),
            final(self)@.ns() >= old(self)@.ns(),
            r < final(self)@.n(),
        decreases end, 1int,
    {
        proof {
            reveal(shape::emit_connector_end_step);
            assert(
                shape::emit_connector_end(old(self)@, *end, parent, scope, i) == shape::emit_connector_end_step(
                    old(self)@,
                    *end,
                    parent,
                    scope,
                    i,
                )
            );
        }
        let ru: usize = self.open_end(parent, i, &end.name);
        self.emit_opt_multiplicity(ru, &end.multiplicity, scope);
        self.close_end(parent, ru, &end.target, scope);
        ru
    }

    /// The ends of a connector, in order.
    pub fn emit_ends(&mut self, ends: &Vec<ConnectorEnd>, parent: usize, scope: usize)
        requires
            old(self)@.wf(),
            parent < old(self)@.n(),
            scope < old(self)@.ns(),
        ensures
            final(self)@ == shape::emit_ends(old(self)@, *ends, parent, scope),
            final(self)@.wf(),
            final(self)@.n() >= old(self)@.n(),
            final(self)@.ns() >= old(self)@.ns(),
        decreases ends, ends@.len() + 1,
    {
        let mut i: usize = 0;
        while i < ends.len()
            invariant
                i <= ends@.len(),
                self@.wf(),
                self@.n() >= old(self)@.n(),
                self@.ns() >= old(self)@.ns(),
                parent < old(self)@.n(),
                scope < old(self)@.ns(),
                shape::emit_ends_from(self@, *ends, parent, scope, i as int) == shape::emit_ends(
                    old(self)@,
                    *ends,
                    parent,
                    scope,
                ),
            decreases ends@.len() - i,
        {
            let x = &ends[i];
            self.emit_connector_end(x, parent, scope, i);
            i += 1;
        }
    }

    /// The flags a payload spells, beside its identification: only those that
    /// are not the default, and the direction of a parameter.
    pub fn payload_flags(
        &mut self,
        payload: &PayloadPart,
        e: usize,
        ty: &'static str,
        is_feature: bool,
    )
        requires
            old(self)@.wf(),
            e < old(self)@.n(),
        ensures
            final(self)@ == shape::payload_flags(old(self)@, *payload, e, ty@, is_feature),
            final(self)@.wf(),
            final(self)@.n() >= old(self)@.n(),
            final(self)@.ns() >= old(self)@.ns(),
    {
        proof {
            reveal(shape::payload_flags);
        }
        self.set_bool_if(str_eq(ty, "ReferenceUsage"), e, "isVariation", false);
        self.set_identification(e, &payload.id);
        self.set_bool_if(payload.is_ordered, e, "isOrdered", true);
        self.set_bool_if(payload.is_nonunique, e, "isUnique", false);
        if !is_feature {
            self.set_str(e, "direction", "inout");
            self.set_bool(e, "isComposite", false);
        }
    }

    /// Register an element in the body of its owner too, where the owner has
    /// one.
    pub fn register_in_owner(&mut self, parent: usize, id: &Identification, e: usize, body: usize)
        requires
            old(self)@.wf(),
            parent < old(self)@.n(),
            e < old(self)@.n(),
            body < old(self)@.ns(),
        ensures
            final(self)@ == shape::register_in_owner(old(self)@, parent, *id, e, body),
            final(self)@.wf(),
            final(self)@.n() >= old(self)@.n(),
            final(self)@.ns() >= old(self)@.ns(),
    {
        proof {
            reveal(shape::register_in_owner);
        }
        let owner_scope = self.elem_scope(parent);
        if let Some(os) = owner_scope {
            self.register(os, id, e, body);
        }
    }

    /// The value of a payload.
    pub fn emit_payload_value(&mut self, value: &Option<ValuePart>, e: usize, scope: usize)
        requires
            old(self)@.wf(),
            e < old(self)@.n(),
            scope < old(self)@.ns(),
        ensures
            final(self)@ == shape::emit_payload_value(old(self)@, *value, e, scope),
            final(self)@.wf(),
            final(self)@.n() >= old(self)@.n(),
            final(self)@.ns() >= old(self)@.ns(),
        decreases value, 2int,
    {
        proof {
            reveal(shape::emit_payload_value_step);
            assert(
                shape::emit_payload_value(old(self)@, *value, e, scope) == shape::emit_payload_value_step(old(self)@, *value, e, scope)
            );
        }
        if let Some(v) = value {
            let fv: usize = self.new_explicit("FeatureValue", e, "value");
            self.build_expr(&v.expr, fv, scope, "expr");
        }
    }

    /// The identification, typing and value of a flow, message or accept
    /// payload.
    pub fn emit_payload(
        &mut self,
        payload: &PayloadPart,
        parent: usize,
        scope: usize,
        ty: &'static str,
    )
        requires
            old(self)@.wf(),
            parent < old(self)@.n(),
            scope < old(self)@.ns(),
        ensures
            final(self)@ == shape::emit_payload(old(self)@, *payload, parent, scope, ty@),
            final(self)@.wf(),
            final(self)@.n() >= old(self)@.n(),
            final(self)@.ns() >= old(self)@.ns(),
        decreases payload, 2int,
    {
        proof {
            reveal(shape::emit_payload_step);
            assert(
                shape::emit_payload(old(self)@, *payload, parent, scope, ty@) == shape::emit_payload_step(
                    old(self)@,
                    *payload,
                    parent,
                    scope,
                    ty@,
                )
            );
        }
        let is_feature = str_eq(ty, "PayloadFeature");
        let rel_ty = if is_feature { "FeatureMembership" } else { "ParameterMembership" };
        let rel: usize = self.new_public(rel_ty, parent, "payload");
        let seg = name_or(&payload.id.name, "payload");
        let e: usize = self.new_owned_element(ty, rel, seg.as_str());
        self.payload_flags(payload, e, ty, is_feature);
        let body: usize = self.open_body(scope, &payload.id, e);
        self.register_in_owner(parent, &payload.id, e, body);
        self.typed_bases(&payload.specializations, body);
        self.emit_clauses(&payload.specializations, e, scope);
        self.emit_opt_multiplicity(e, &payload.multiplicity, scope);
        self.emit_payload_value(&payload.value, e, scope);
    }

    /// An expression as the value of a parameter of its own.
    pub fn emit_expr_param(&mut self, parent: usize, seg: &str, expr: &Expr, scope: usize)
        requires
            old(self)@.wf(),
            parent < old(self)@.n(),
            scope < old(self)@.ns(),
        ensures
            final(self)@ == shape::emit_expr_param(old(self)@, parent, seg@, *expr, scope),
            final(self)@.wf(),
            final(self)@.n() >= old(self)@.n(),
            final(self)@.ns() >= old(self)@.ns(),
        decreases expr, 10int,
    {
        proof {
            reveal(shape::emit_expr_param_step);
            assert(
                shape::emit_expr_param(old(self)@, parent, seg@, *expr, scope) == shape::emit_expr_param_step(
                    old(self)@,
                    parent,
                    seg@,
                    *expr,
                    scope,
                )
            );
        }
        let pm: usize = self.new_explicit("ParameterMembership", parent, seg);
        let ru: usize = self.new_ref_feature(pm, seg);
        self.set_synth_usage_flags(ru);
        let fv: usize = self.new_explicit("FeatureValue", ru, "value");
        self.build_expr(expr, fv, scope, "expr");
    }

    /// A positional parameter slot: its expression, or an empty parameter.
    pub fn emit_slot(&mut self, slot: &Option<Rc<Expr>>, parent: usize, seg: &str, scope: usize)
        requires
            old(self)@.wf(),
            parent < old(self)@.n(),
            scope < old(self)@.ns(),
        ensures
            final(self)@ == shape::emit_slot(old(self)@, *slot, parent, seg@, scope),
            final(self)@.wf(),
            final(self)@.n() >= old(self)@.n(),
            final(self)@.ns() >= old(self)@.ns(),
        decreases slot, 1int,
    {
        proof {
            reveal(shape::emit_slot_step);
            assert(
                shape::emit_slot(old(self)@, *slot, parent, seg@, scope) == shape::emit_slot_step(
                    old(self)@,
                    *slot,
                    parent,
                    seg@,
                    scope,
                )
            );
        }
        if let Some(expr) = slot {
            self.emit_expr_param(parent, seg, expr, scope);
        } else {
            let pm: usize = self.new_explicit("ParameterMembership", parent, seg);
            let ru: usize = self.new_ref_feature(pm, seg);
            self.set_synth_usage_flags(ru);
        }
    }

    /// A usage nested as a parameter: the body of a control node.
    pub fn emit_usage_param(&mut self, parent: usize, seg: &str, u: &Usage, scope: usize)
        requires
            old(self)@.wf(),
            parent < old(self)@.n(),
            scope < old(self)@.ns(),
        ensures
            final(self)@ == shape::emit_usage_param(old(self)@, parent, seg@, *u, scope),
            final(self)@.wf(),
            final(self)@.n() >= old(self)@.n(),
            final(self)@.ns() >= old(self)@.ns(),
        decreases u, 6int,
    {
        proof {
            reveal(shape::emit_usage_param_step);
            assert(
                shape::emit_usage_param(old(self)@, parent, seg@, *u, scope) == shape::emit_usage_param_step(
                    old(self)@,
                    parent,
                    seg@,
                    *u,
                    scope,
                )
            );
        }
        let pm: usize = self.new_explicit("ParameterMembership", parent, seg);
        let inner: usize = self.push_scope(Some(scope));
        self.build_nested_usage(u, pm, inner, seg);
    }

    /// The flow feature of a flow end: the source's output or the target's
    /// input, redefining what is returned's target.
    pub fn flow_feature(&mut self, fe: usize, i: usize) -> (r: usize)
        requires
            old(self)@.wf(),
            fe < old(self)@.n(),
        ensures
            (final(self)@, r) == shape::flow_feature(old(self)@, fe, i),
            final(self)@.wf(),
            final(self)@.n() >= old(self)@.n(),
            final(self)@.ns() >= old(self)@.ns(),
            r < final(self)@.n(),
    {
        proof {
            reveal(shape::flow_feature);
        }
        let fm: usize = self.new_explicit("FeatureMembership", fe, "flowfeature");
        let ru: usize = self.new_owned_element("ReferenceUsage", fm, "flowfeature");
        self.set_str(ru, "direction", if i == 0 { "out" } else { "in" });
        self.set_bool(ru, "isComposite", false);
        self.set_bool(ru, "isVariation", false);
        let rd: usize = self.new_explicit("Redefinition", ru, "redef");
        self.set_link(rd, "redefiningFeature", ru);
        rd
    }

    /// One end of a flow: a reference to the chain's prefix, and a flow feature
    /// redefining its last step.
    pub fn flow_end(&mut self, end: &ConnectorEnd, e: usize, scope: usize, i: usize)
        requires
            old(self)@.wf(),
            e < old(self)@.n(),
            scope < old(self)@.ns(),
        ensures
            final(self)@ == shape::flow_end(old(self)@, *end, e, scope, i),
            final(self)@.wf(),
            final(self)@.n() >= old(self)@.n(),
            final(self)@.ns() >= old(self)@.ns(),
    {
        proof {
            reveal(shape::flow_end);
        }
        let seg0 = numbered_seg("flowend", i);
        let rel: usize = self.new_explicit("EndFeatureMembership", e, seg0.as_str());
        let seg1 = numbered_seg("end", i);
        let fe: usize = self.new_owned_element("FlowEnd", rel, seg1.as_str());
        self.set_bool(fe, "isEnd", true);
        match &end.target {
            TargetRef::Name(qn) => {
                let rd: usize = self.flow_feature(fe, i);
                self.push_pending(
                    PendingRef {
                        elem: rd,
                        key: "redefinedFeature",
                        index: None,
                        scope: scope,
                        qn: qn.duplicate(),
                        exclude: None,
                        declared_only: false,
                        chain: None,
                        spec_idx: None,
                    }
                );
            },
            TargetRef::Chain(links) => {
                if links.len() > 0 {
                    let last = last_index(links);
                    if links.len() > 1 {
                        let rs: usize = self.new_explicit("ReferenceSubsetting", fe, "refsub");
                        if links.len() == 2 {
                            self.ref_name(rs, "referencedFeature", None, scope, &links[0], None);
                        } else {
                            self.set_chain_prefix(rs, "referencedFeature", scope, links, last);
                        }
                        self.set_link(rs, "subsettingFeature", fe);
                    }
                    let rd: usize = self.flow_feature(fe, i);
                    self.push_pending(
                        PendingRef {
                            elem: rd,
                            key: "redefinedFeature",
                            index: None,
                            scope: scope,
                            qn: links[last].duplicate(),
                            exclude: None,
                            declared_only: false,
                            chain: preceding(links, last),
                            spec_idx: None,
                        }
                    );
                }
            },
        }
    }

    /// The ends of a flow, as far as they are written.
    pub fn flow_ends(
        &mut self,
        source: &Option<ConnectorEnd>,
        target: &Option<ConnectorEnd>,
        e: usize,
        scope: usize,
    )
        requires
            old(self)@.wf(),
            e < old(self)@.n(),
            scope < old(self)@.ns(),
        ensures
            final(self)@ == shape::flow_ends(old(self)@, *source, *target, e, scope),
            final(self)@.wf(),
            final(self)@.n() >= old(self)@.n(),
            final(self)@.ns() >= old(self)@.ns(),
    {
        proof {
            reveal(shape::flow_ends);
        }
        if let Some(s) = source {
            self.flow_end(s, e, scope, 0);
            if let Some(t) = target {
                self.flow_end(t, e, scope, 1);
            }
        } else if let Some(t) = target {
            self.flow_end(t, e, scope, 0);
        }
    }

    /// The subject of a satisfaction: a parameter bound to the `by` target.
    pub fn emit_satisfaction(&mut self, e: usize, by: &TargetRef, scope: usize)
        requires
            old(self)@.wf(),
            e < old(self)@.n(),
            scope < old(self)@.ns(),
        ensures
            final(self)@ == shape::emit_satisfaction(old(self)@, e, *by, scope),
            final(self)@.wf(),
            final(self)@.n() >= old(self)@.n(),
            final(self)@.ns() >= old(self)@.ns(),
    {
        proof {
            reveal(shape::emit_satisfaction);
        }
        self.push_satisfy_by(e, scope, by.duplicate());
        let rel: usize = self.new_explicit("SubjectMembership", e, "by");
        let ru: usize = self.new_owned_element("ReferenceUsage", rel, "satisfactionSubject");
        self.set_bool(ru, "isVariation", false);
        let fv: usize = self.new_explicit("FeatureValue", ru, "value");
        let fre: usize = self.new_owned_element("FeatureReferenceExpression", fv, "expr");
        let m: usize = self.new_explicit(satisfaction_membership(by), fre, "ref");
        self.set_ref(m, "memberElement", scope, by);
    }

    /// The trigger of an accept action.
    pub fn emit_trigger(&mut self, t: &Trigger, e: usize, scope: usize)
        requires
            old(self)@.wf(),
            e < old(self)@.n(),
            scope < old(self)@.ns(),
        ensures
            final(self)@ == shape::emit_trigger(old(self)@, *t, e, scope),
            final(self)@.wf(),
            final(self)@.n() >= old(self)@.n(),
            final(self)@.ns() >= old(self)@.ns(),
        decreases t, 1int,
    {
        proof {
            reveal(shape::emit_trigger_step);
            assert(
                shape::emit_trigger(old(self)@, *t, e, scope) == shape::emit_trigger_step(old(self)@, *t, e, scope)
            );
        }
        let pm: usize = self.new_explicit("ParameterMembership", e, "trigger");
        let te: usize = self.new_owned_element("TriggerInvocationExpression", pm, "trigger");
        self.set_str(te, "kind", trigger_kind(t.kind));
        let am: usize = self.new_explicit("ParameterMembership", te, "arg");
        self.build_expr(&t.expr, am, scope, "expr");
    }

    /// The `via` receiver of an accept action: an `in` parameter with its value.
    pub fn emit_via(&mut self, expr: &Expr, e: usize, scope: usize)
        requires
            old(self)@.wf(),
            e < old(self)@.n(),
            scope < old(self)@.ns(),
        ensures
            final(self)@ == shape::emit_via(old(self)@, *expr, e, scope),
            final(self)@.wf(),
            final(self)@.n() >= old(self)@.n(),
            final(self)@.ns() >= old(self)@.ns(),
        decreases expr, 10int,
    {
        proof {
            reveal(shape::emit_via_step);
            assert(
                shape::emit_via(old(self)@, *expr, e, scope) == shape::emit_via_step(old(self)@, *expr, e, scope)
            );
        }
        let pm: usize = self.new_explicit("ParameterMembership", e, "via");
        let ru: usize = self.new_ref_feature(pm, "via");
        self.set_synth_usage_flags(ru);
        self.set_str(ru, "direction", "in");
        self.set_bool(ru, "isComposite", false);
        let fv: usize = self.new_explicit("FeatureValue", ru, "value");
        self.build_expr(expr, fv, scope, "expr");
    }

    /// The loop variable of a for loop.
    pub fn emit_loop_variable(&mut self, var: &FeatureDeclaration, e: usize, scope: usize)
        requires
            old(self)@.wf(),
            e < old(self)@.n(),
            scope < old(self)@.ns(),
        ensures
            final(self)@ == shape::emit_loop_variable(old(self)@, *var, e, scope),
            final(self)@.wf(),
            final(self)@.n() >= old(self)@.n(),
            final(self)@.ns() >= old(self)@.ns(),
    {
        proof {
            reveal(shape::emit_loop_variable);
        }
        let fm: usize = self.new_explicit("FeatureMembership", e, "loopVariable");
        let seg = name_or(&var.id.name, "var");
        let ve: usize = self.new_owned_element("ReferenceUsage", fm, seg.as_str());
        self.set_bool(ve, "isVariation", false);
        self.set_identification(ve, &var.id);
        self.emit_specializations(ve, var, scope);
    }

    /// The payload of a trigger as a parameter of the transition itself.
    pub fn emit_payload_param(&mut self, payload: &PayloadPart, e: usize, scope: usize)
        requires
            old(self)@.wf(),
            e < old(self)@.n(),
            scope < old(self)@.ns(),
        ensures
            final(self)@ == shape::emit_payload_param(old(self)@, *payload, e, scope),
            final(self)@.wf(),
            final(self)@.n() >= old(self)@.n(),
            final(self)@.ns() >= old(self)@.ns(),
    {
        proof {
            reveal(shape::emit_payload_param);
        }
        let pm: usize = self.new_explicit("ParameterMembership", e, "payloadparam");
        let ru: usize = self.new_owned_element("ReferenceUsage", pm, "payloadparam");
        self.set_bool(ru, "isVariation", false);
        self.set_identification(ru, &payload.id);
        self.set_str(ru, "direction", "in");
        self.set_bool(ru, "isComposite", false);
        let ebody = self.elem_scope(e);
        if let Some(eb) = ebody {
            let ru_scope: usize = self.push_scope(Some(scope));
            self.typed_bases(&payload.specializations, ru_scope);
            self.register(eb, &payload.id, ru, ru_scope);
        }
    }

    /// The trigger of a transition: an accept action with the given detail.
    pub fn emit_transition_trigger(
        &mut self,
        trigger: &UsageDetail,
        e: usize,
        scope: usize,
        t_scope: usize,
    )
        requires
            old(self)@.wf(),
            e < old(self)@.n(),
            scope < old(self)@.ns(),
            t_scope < old(self)@.ns(),
        ensures
            final(self)@ == shape::emit_transition_trigger(old(self)@, *trigger, e, scope, t_scope),
            final(self)@.wf(),
            final(self)@.n() >= old(self)@.n(),
            final(self)@.ns() >= old(self)@.ns(),
        decreases trigger, 4int,
    {
        proof {
            reveal(shape::emit_transition_trigger_step);
            assert(
                shape::emit_transition_trigger(old(self)@, *trigger, e, scope, t_scope) == shape::emit_transition_trigger_step(
                    old(self)@,
                    *trigger,
                    e,
                    scope,
                    t_scope,
                )
            );
        }
        if let UsageDetail::Accept { payload, trigger: inner, via } = trigger {
            self.emit_payload_param(payload, e, scope);
        }
        let tm: usize = self.new_explicit("TransitionFeatureMembership", e, "trigger");
        self.set_str(tm, "kind", "trigger");
        let ae: usize = self.new_owned_element("AcceptActionUsage", tm, "trigger");
        self.set_bool(ae, "isComposite", true);
        self.set_bool(ae, "isVariation", false);
        self.build_usage_detail(trigger, ae, t_scope);
    }

    /// The guard of a transition.
    pub fn emit_guard(&mut self, guard: &Rc<Expr>, e: usize, t_scope: usize)
        requires
            old(self)@.wf(),
            e < old(self)@.n(),
            t_scope < old(self)@.ns(),
        ensures
            final(self)@ == shape::emit_guard(old(self)@, *guard, e, t_scope),
            final(self)@.wf(),
            final(self)@.n() >= old(self)@.n(),
            final(self)@.ns() >= old(self)@.ns(),
        decreases guard, 10int,
    {
        proof {
            reveal(shape::emit_guard_step);
            assert(
                shape::emit_guard(old(self)@, *guard, e, t_scope) == shape::emit_guard_step(
                    old(self)@,
                    *guard,
                    e,
                    t_scope,
                )
            );
        }
        let gm: usize = self.new_explicit("TransitionFeatureMembership", e, "guard");
        self.set_str(gm, "kind", "guard");
        self.build_expr(guard, gm, t_scope, "expr");
        self.set_guard(e, t_scope, guard);
    }

    /// The effect of a transition, in a scope of its own.
    pub fn emit_effect(&mut self, effect: &Usage, e: usize, t_scope: usize)
        requires
            old(self)@.wf(),
            e < old(self)@.n(),
            t_scope < old(self)@.ns(),
        ensures
            final(self)@ == shape::emit_effect(old(self)@, *effect, e, t_scope),
            final(self)@.wf(),
            final(self)@.n() >= old(self)@.n(),
            final(self)@.ns() >= old(self)@.ns(),
        decreases effect, 6int,
    {
        proof {
            reveal(shape::emit_effect_step);
            assert(
                shape::emit_effect(old(self)@, *effect, e, t_scope) == shape::emit_effect_step(
                    old(self)@,
                    *effect,
                    e,
                    t_scope,
                )
            );
        }
        let em: usize = self.new_explicit("TransitionFeatureMembership", e, "effect");
        self.set_str(em, "kind", "effect");
        let inner: usize = self.push_scope(Some(t_scope));
        self.build_nested_usage(effect, em, inner, "effect");
    }

    /// The succession of a transition: an unwritten source and the target.
    pub fn emit_transition_target(&mut self, target: &ConnectorEnd, e: usize, scope: usize)
        requires
            old(self)@.wf(),
            e < old(self)@.n(),
            scope < old(self)@.ns(),
        ensures
            final(self)@ == shape::emit_transition_target(old(self)@, *target, e, scope),
            final(self)@.wf(),
            final(self)@.n() >= old(self)@.n(),
            final(self)@.ns() >= old(self)@.ns(),
        decreases target, 2int,
    {
        proof {
            reveal(shape::emit_transition_target_step);
            assert(
                shape::emit_transition_target(old(self)@, *target, e, scope) == shape::emit_transition_target_step(old(self)@, *target, e, scope)
            );
        }
        let sm: usize = self.new_public("OwningMembership", e, "succession");
        let succ: usize = self.new_owned_element("SuccessionAsUsage", sm, "succession");
        self.set_bool(succ, "isComposite", false);
        self.set_bool(succ, "isVariation", false);
        self.emit_empty_end(succ, 0);
        self.emit_connector_end(target, succ, scope, 1);
    }

    /// The source of a transition.
    pub fn emit_transition_source(&mut self, source: &Option<TargetRef>, e: usize, scope: usize)
        requires
            old(self)@.wf(),
            e < old(self)@.n(),
            scope < old(self)@.ns(),
        ensures
            final(self)@ == shape::emit_transition_source(old(self)@, *source, e, scope),
            final(self)@.wf(),
            final(self)@.n() >= old(self)@.n(),
            final(self)@.ns() >= old(self)@.ns(),
    {
        proof {
            reveal(shape::emit_transition_source);
        }
        if let Some(s) = source {
            let m: usize = self.new_explicit("Membership", e, "source");
            self.set_ref(m, "memberElement", scope, s);
        }
    }

    /// The trigger of a transition, where it has one.
    pub fn emit_opt_trigger(
        &mut self,
        trigger: &Option<Box<UsageDetail>>,
        e: usize,
        scope: usize,
        t_scope: usize,
    )
        requires
            old(self)@.wf(),
            e < old(self)@.n(),
            scope < old(self)@.ns(),
            t_scope < old(self)@.ns(),
        ensures
            final(self)@ == shape::emit_opt_trigger(old(self)@, *trigger, e, scope, t_scope),
            final(self)@.wf(),
            final(self)@.n() >= old(self)@.n(),
            final(self)@.ns() >= old(self)@.ns(),
        decreases trigger, 1int,
    {
        proof {
            reveal(shape::emit_opt_trigger_step);
            assert(
                shape::emit_opt_trigger(old(self)@, *trigger, e, scope, t_scope) == shape::emit_opt_trigger_step(
                    old(self)@,
                    *trigger,
                    e,
                    scope,
                    t_scope,
                )
            );
        }
        if let Some(t) = trigger {
            self.emit_transition_trigger(t, e, scope, t_scope);
        }
    }

    /// The guard of a transition, where it has one.
    pub fn emit_opt_guard(&mut self, guard: &Option<Rc<Expr>>, e: usize, t_scope: usize)
        requires
            old(self)@.wf(),
            e < old(self)@.n(),
            t_scope < old(self)@.ns(),
        ensures
            final(self)@ == shape::emit_opt_guard(old(self)@, *guard, e, t_scope),
            final(self)@.wf(),
            final(self)@.n() >= old(self)@.n(),
            final(self)@.ns() >= old(self)@.ns(),
        decreases guard, 11int,
    {
        proof {
            reveal(shape::emit_opt_guard_step);
            assert(
                shape::emit_opt_guard(old(self)@, *guard, e, t_scope) == shape::emit_opt_guard_step(
                    old(self)@,
                    *guard,
                    e,
                    t_scope,
                )
            );
        }
        if let Some(g) = guard {
            self.emit_guard(g, e, t_scope);
        }
    }

    /// The effect of a transition, where it has one.
    pub fn emit_opt_effect(&mut self, effect: &Option<Box<Usage>>, e: usize, t_scope: usize)
        requires
            old(self)@.wf(),
            e < old(self)@.n(),
            t_scope < old(self)@.ns(),
        ensures
            final(self)@ == shape::emit_opt_effect(old(self)@, *effect, e, t_scope),
            final(self)@.wf(),
            final(self)@.n() >= old(self)@.n(),
            final(self)@.ns() >= old(self)@.ns(),
        decreases effect, 1int,
    {
        proof {
            reveal(shape::emit_opt_effect_step);
            assert(
                shape::emit_opt_effect(old(self)@, *effect, e, t_scope) == shape::emit_opt_effect_step(
                    old(self)@,
                    *effect,
                    e,
                    t_scope,
                )
            );
        }
        if let Some(x) = effect {
            self.emit_effect(x, e, t_scope);
        }
    }

    /// The target of a transition, where it has one.
    pub fn emit_opt_target(&mut self, target: &Option<ConnectorEnd>, e: usize, scope: usize)
        requires
            old(self)@.wf(),
            e < old(self)@.n(),
            scope < old(self)@.ns(),
        ensures
            final(self)@ == shape::emit_opt_target(old(self)@, *target, e, scope),
            final(self)@.wf(),
            final(self)@.n() >= old(self)@.n(),
            final(self)@.ns() >= old(self)@.ns(),
        decreases target, 1int,
    {
        proof {
            reveal(shape::emit_opt_target_step);
            assert(
                shape::emit_opt_target(old(self)@, *target, e, scope) == shape::emit_opt_target_step(old(self)@, *target, e, scope)
            );
        }
        if let Some(t) = target {
            self.emit_transition_target(t, e, scope);
        }
    }

    /// An optional expression parameter.
    pub fn emit_opt_expr_param(
        &mut self,
        expr: &Option<Rc<Expr>>,
        e: usize,
        seg: &str,
        scope: usize,
    )
        requires
            old(self)@.wf(),
            e < old(self)@.n(),
            scope < old(self)@.ns(),
        ensures
            final(self)@ == shape::emit_opt_expr_param(old(self)@, *expr, e, seg@, scope),
            final(self)@.wf(),
            final(self)@.n() >= old(self)@.n(),
            final(self)@.ns() >= old(self)@.ns(),
        decreases expr, 1int,
    {
        proof {
            reveal(shape::emit_opt_expr_param_step);
            assert(
                shape::emit_opt_expr_param(old(self)@, *expr, e, seg@, scope) == shape::emit_opt_expr_param_step(
                    old(self)@,
                    *expr,
                    e,
                    seg@,
                    scope,
                )
            );
        }
        if let Some(x) = expr {
            self.emit_expr_param(e, seg, x, scope);
        }
    }

    /// The kind-specific part of a usage.
    pub fn build_usage_detail(&mut self, detail: &UsageDetail, e: usize, scope: usize)
        requires
            old(self)@.wf(),
            e < old(self)@.n(),
            scope < old(self)@.ns(),
        ensures
            final(self)@ == shape::build_usage_detail(old(self)@, *detail, e, scope),
            final(self)@.wf(),
            final(self)@.n() >= old(self)@.n(),
            final(self)@.ns() >= old(self)@.ns(),
        decreases detail, 3int,
    {
        proof {
            reveal(shape::build_usage_detail_step);
            assert(
                shape::build_usage_detail(old(self)@, *detail, e, scope) == shape::build_usage_detail_step(old(self)@, *detail, e, scope)
            );
        }
        match detail {
            UsageDetail::Plain => {
            },
            UsageDetail::Connector { ends } => {
                self.emit_ends(ends, e, scope);
            },
            UsageDetail::Binding { ends } => {
                self.emit_ends(ends, e, scope);
            },
            UsageDetail::Succession { source, target } => {
                if let Some(s) = source {
                    self.emit_connector_end(s, e, scope, 0);
                } else {
                    self.emit_empty_end(e, 0);
                }
                self.emit_connector_end(target, e, scope, 1);
            },
            UsageDetail::Flow { payload, source, target } => {
                if let Some(p) = payload {
                    self.emit_payload(p, e, scope, "PayloadFeature");
                }
                self.flow_ends(source, target, e, scope);
            },
            UsageDetail::Metadata { about } => {
                self.emit_about(about, e, scope);
            },
            UsageDetail::Satisfy { asserted, negated, by } => {
                self.set_bool(e, "isNegated", *negated);
                if let Some(t) = by {
                    self.emit_satisfaction(e, t, scope);
                }
            },
            UsageDetail::Assert { negated } => {
                self.set_bool(e, "isNegated", *negated);
            },
            UsageDetail::Accept { payload, trigger, via } => {
                self.emit_payload(payload, e, scope, "ReferenceUsage");
                if let Some(t) = trigger {
                    self.emit_trigger(t, e, scope);
                }
                if let Some(v) = via {
                    self.emit_via(v, e, scope);
                }
            },
            UsageDetail::Send { payload, via, to } => {
                self.emit_slot(payload, e, "payload", scope);
                self.emit_slot(via, e, "via", scope);
                self.emit_slot(to, e, "receiver", scope);
            },
            UsageDetail::Assign { target, value } => {
                self.emit_expr_param(e, "target", target, scope);
                self.emit_expr_param(e, "value", value, scope);
            },
            UsageDetail::Terminate { target } => {
                self.emit_opt_expr_param(target, e, "terminatedOccurrence", scope);
            },
            UsageDetail::IfNode { cond, then_body, else_body } => {
                self.emit_expr_param(e, "condition", cond, scope);
                self.emit_usage_param(e, "then", then_body, scope);
                if let Some(other) = else_body {
                    self.emit_usage_param(e, "else", other, scope);
                }
            },
            UsageDetail::WhileLoop { cond, body, until } => {
                self.emit_opt_expr_param(cond, e, "condition", scope);
                self.emit_usage_param(e, "body", body, scope);
                self.emit_opt_expr_param(until, e, "until", scope);
            },
            UsageDetail::ForLoop { var, seq, body } => {
                self.emit_loop_variable(var, e, scope);
                self.emit_expr_param(e, "seq", seq, scope);
                self.emit_usage_param(e, "body", body, scope);
            },
            UsageDetail::Transition { source, trigger, guard, effect, target, is_default } => {
                self.emit_transition_source(source, e, scope);
                let t_scope: usize = self.push_scope(Some(scope));
                self.emit_opt_trigger(trigger, e, scope, t_scope);
                self.emit_opt_guard(guard, e, t_scope);
                self.emit_opt_effect(effect, e, t_scope);
                self.emit_opt_target(target, e, scope);
            },
        }
    }
}

} // verus!
