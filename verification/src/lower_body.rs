//! Lowering of the value, ends and body of usages.

use crate::ast::{
    TargetRef, Dialect, UsageKind, ValueKind, ValuePart, ConnectorEnd, UsageDetail, Usage, Member,
};
use crate::lower_util::{merge_ends, nth_end, binary_base};
use crate::shape;
use crate::state::{all_below, Builder};
use crate::syntax::{flat_target_qn, bare_end_spec, bare_end_parts, bare_end};
use crate::tables::lib_qn;
use vstd::prelude::*;

verus! {

impl Builder {
    pub fn emit_bare_end(&mut self, m: &Member, parent: usize, scope: usize, i: usize) -> (r: usize)
        requires
            old(self)@.wf(),
            parent < old(self)@.n(),
            scope < old(self)@.ns(),
            bare_end_spec(*m),
        ensures
            (final(self)@, r) == shape::emit_bare_end(old(self)@, *m, parent, scope, i),
            r < final(self)@.n(),
            final(self)@.wf(),
            final(self)@.n() >= old(self)@.n(),
            final(self)@.ns() >= old(self)@.ns(),
        decreases m, 1int,
    {
        proof {
            reveal(shape::emit_bare_end_step);
            assert(
                shape::emit_bare_end(old(self)@, *m, parent, scope, i) == shape::emit_bare_end_step(
                    old(self)@,
                    *m,
                    parent,
                    scope,
                    i,
                )
            );
        }
        match bare_end_parts(m) {
            Some((u, t)) => {
                let ru: usize = self.open_end(parent, i, &u.declaration.id.name);
                self.emit_opt_multiplicity(ru, &u.declaration.multiplicity, scope);
                self.close_end(parent, ru, t, scope);
                ru
            },
            None => parent,
        }
    }

    pub fn end_elems(
        &mut self,
        ends: &Vec<ConnectorEnd>,
        parent: usize,
        scope: usize,
    ) -> (r: Vec<usize>)
        requires
            old(self)@.wf(),
            parent < old(self)@.n(),
            scope < old(self)@.ns(),
        ensures
            (final(self)@, r@) == shape::end_elems_from(old(self)@, *ends, parent, scope, 0, Seq::empty()),
            all_below(r@, final(self)@.n()),
            final(self)@.wf(),
            final(self)@.n() >= old(self)@.n(),
            final(self)@.ns() >= old(self)@.ns(),
        decreases ends, ends@.len() + 1,
    {
        let mut made: Vec<usize> = Vec::new();
        let mut k: usize = 0;
        while k < ends.len()
            invariant
                k <= ends@.len(),
                self@.wf(),
                parent < self@.n(),
                scope < self@.ns(),
                self@.n() >= old(self)@.n(),
                self@.ns() >= old(self)@.ns(),
                all_below(made@, self@.n()),
                shape::end_elems_from(self@, *ends, parent, scope, k as int, made@)
                    == shape::end_elems_from(old(self)@, *ends, parent, scope, 0, Seq::empty()),
            decreases ends@.len() - k,
        {
            let ru: usize = self.emit_connector_end(&ends[k], parent, scope, k);
            made.push(ru);
            k += 1;
        }
        made
    }

    pub fn bare_elems(
        &mut self,
        ms: &Vec<Member>,
        parent: usize,
        scope: usize,
        made: &mut Vec<usize>,
    )
        requires
            old(self)@.wf(),
            parent < old(self)@.n(),
            scope < old(self)@.ns(),
            all_below(old(made)@, old(self)@.n()),
        ensures
            (final(self)@, final(made)@) == shape::bare_elems_from(
                old(self)@,
                *ms,
                parent,
                scope,
                0,
                old(made)@,
            ),
            all_below(final(made)@, final(self)@.n()),
            final(self)@.wf(),
            final(self)@.n() >= old(self)@.n(),
            final(self)@.ns() >= old(self)@.ns(),
        decreases ms, ms@.len() + 1,
    {
        let mut k: usize = 0;
        while k < ms.len()
            invariant
                k <= ms@.len(),
                self@.wf(),
                parent < self@.n(),
                scope < self@.ns(),
                self@.n() >= old(self)@.n(),
                self@.ns() >= old(self)@.ns(),
                all_below(made@, self@.n()),
                shape::bare_elems_from(self@, *ms, parent, scope, k as int, made@)
                    == shape::bare_elems_from(old(self)@, *ms, parent, scope, 0, old(made)@),
            decreases ms@.len() - k,
        {
            if bare_end(&ms[k]) {
                let num: usize = made.len();
                let ru: usize = self.emit_bare_end(&ms[k], parent, scope, num);
                made.push(ru);
            }
            k += 1;
        }
    }

    /// The detail of a usage, and the end features of a connector's.
    pub fn usage_ends(&mut self, u: &Usage, e: usize, scope: usize) -> (r: Vec<usize>)
        requires
            old(self)@.wf(),
            e < old(self)@.n(),
            scope < old(self)@.ns(),
        ensures
            (final(self)@, r@) == shape::usage_ends(old(self)@, *u, e, scope),
            all_below(r@, final(self)@.n()),
            final(self)@.wf(),
            final(self)@.n() >= old(self)@.n(),
            final(self)@.ns() >= old(self)@.ns(),
        decreases u, 2int,
    {
        proof {
            reveal(shape::usage_ends_step);
            assert(
                shape::usage_ends(old(self)@, *u, e, scope) == shape::usage_ends_step(old(self)@, *u, e, scope)
            );
        }
        let merge = merge_ends(u);
        let mut made: Vec<usize> = Vec::new();
        if let UsageDetail::Connector { ends } = &u.detail {
            made = self.end_elems(ends, e, scope);
            if merge {
                if let Some(ms) = &u.body {
                    self.bare_elems(ms, e, scope, &mut made);
                }
            }
        } else {
            assert(made@ =~= Seq::<usize>::empty());
            if merge {
                if let Some(ms) = &u.body {
                    self.bare_elems(ms, e, scope, &mut made);
                }
            } else {
                self.build_usage_detail(&u.detail, e, scope);
            }
        }
        made
    }

    pub fn emit_implied_end(
        &mut self,
        name: &'static str,
        end: usize,
        target: Option<&TargetRef>,
        scope: usize,
        body: usize,
    )
        requires
            old(self)@.wf(),
            end < old(self)@.n(),
            scope < old(self)@.ns(),
            body < old(self)@.ns(),
        ensures
            final(self)@ == shape::emit_implied_end(
                old(self)@,
                name@,
                end,
                match target {
                    Some(t) => Some(*t),
                    None => None,
                },
                scope,
                body,
            ),
            final(self)@.wf(),
            final(self)@.n() >= old(self)@.n(),
            final(self)@.ns() >= old(self)@.ns(),
    {
        proof {
            reveal(shape::emit_implied_end);
        }
        let end_scope: usize = self.push_scope(Some(scope));
        self.set_scope_owner(end_scope, end);
        if let Some(t) = target {
            if let Some(qn) = flat_target_qn(t) {
                self.push_base(end_scope, qn);
            }
        }
        self.set_elem_scope(end, end_scope);
        self.push_implied_end(body, name, end, end_scope);
    }

    pub fn binary_connector(&mut self, u: &Usage, ends: &Vec<usize>, scope: usize, body: usize)
        requires
            old(self)@.wf(),
            scope < old(self)@.ns(),
            body < old(self)@.ns(),
            all_below(ends@, old(self)@.n()),
        ensures
            final(self)@ == shape::binary_connector(old(self)@, *u, ends@, scope, body),
            final(self)@.wf(),
            final(self)@.n() >= old(self)@.n(),
            final(self)@.ns() >= old(self)@.ns(),
    {
        proof {
            reveal(shape::binary_connector);
        }
        if (u.kind == UsageKind::Connection || u.kind == UsageKind::Interface || u.kind
            == UsageKind::Allocation || u.kind == UsageKind::Connector) && ends.len() == 2 {
            if self.read_dialect() == Dialect::Sysml {
                if let Some(base) = binary_base(u.kind) {
                    self.push_base(body, lib_qn(&base));
                }
            }
            self.emit_implied_end("source", ends[0], nth_end(u, 0), scope, body);
            self.emit_implied_end("target", ends[1], nth_end(u, 1), scope, body);
        }
    }

    pub fn usage_members(&mut self, ms: &Vec<Member>, e: usize, scope: usize, skip_bare: bool)
        requires
            old(self)@.wf(),
            e < old(self)@.n(),
            scope < old(self)@.ns(),
        ensures
            final(self)@ == shape::usage_members_from(old(self)@, *ms, e, scope, skip_bare, 0, 0),
            final(self)@.wf(),
            final(self)@.n() >= old(self)@.n(),
            final(self)@.ns() >= old(self)@.ns(),
        decreases ms, ms@.len() + 1,
    {
        let mut k: usize = 0;
        let mut num: usize = 0;
        while k < ms.len()
            invariant
                k <= ms@.len(),
                num <= k,
                self@.wf(),
                e < self@.n(),
                scope < self@.ns(),
                self@.n() >= old(self)@.n(),
                self@.ns() >= old(self)@.ns(),
                shape::usage_members_from(self@, *ms, e, scope, skip_bare, k as int, num as int)
                    == shape::usage_members_from(old(self)@, *ms, e, scope, skip_bare, 0, 0),
            decreases ms@.len() - k,
        {
            let skip = skip_bare && bare_end(&ms[k]);
            if !skip {
                self.build_member(&ms[k], e, scope, num);
                num += 1;
            }
            k += 1;
        }
    }

    pub fn emit_value(&mut self, value: &ValuePart, e: usize, scope: usize)
        requires
            old(self)@.wf(),
            e < old(self)@.n(),
            scope < old(self)@.ns(),
        ensures
            final(self)@ == shape::emit_value(old(self)@, *value, e, scope),
            final(self)@.wf(),
            final(self)@.n() >= old(self)@.n(),
            final(self)@.ns() >= old(self)@.ns(),
        decreases value, 1int,
    {
        proof {
            reveal(shape::emit_value_step);
            assert(
                shape::emit_value(old(self)@, *value, e, scope) == shape::emit_value_step(old(self)@, *value, e, scope)
            );
        }
        let is_default = value.kind == ValueKind::Default || value.kind == ValueKind::DefaultInitial;
        let is_initial = value.kind == ValueKind::Initial || value.kind == ValueKind::DefaultInitial;
        self.set_value(e, scope, &value.expr);
        if is_default {
            self.mark_default(e);
        }
        let fv: usize = self.new_explicit("FeatureValue", e, "value");
        self.set_bool(fv, "isInitial", is_initial);
        self.set_bool(fv, "isDefault", is_default);
        let saved = self.read_pending_exclude();
        self.set_exclude(Some(e));
        self.build_expr(&value.expr, fv, scope, "expr");
        self.set_exclude(saved);
    }

    /// The value, detail and body of a usage element.
    pub fn finish_usage_element(&mut self, u: &Usage, e: usize, scope: usize, body: usize)
        requires
            old(self)@.wf(),
            e < old(self)@.n(),
            scope < old(self)@.ns(),
            body < old(self)@.ns(),
        ensures
            final(self)@ == shape::finish_usage_element(old(self)@, *u, e, scope, body),
            final(self)@.wf(),
            final(self)@.n() >= old(self)@.n(),
            final(self)@.ns() >= old(self)@.ns(),
        decreases u, 3int,
    {
        proof {
            reveal(shape::finish_usage_element_step);
            assert(
                shape::finish_usage_element(old(self)@, *u, e, scope, body) == shape::finish_usage_element_step(
                    old(self)@,
                    *u,
                    e,
                    scope,
                    body,
                )
            );
        }
        if let Some(value) = &u.value {
            self.emit_value(value, e, scope);
        }
        if u.kind == UsageKind::State || u.kind == UsageKind::Exhibit {
            self.set_bool(e, "isParallel", u.is_parallel);
        }
        let ends = self.usage_ends(u, e, scope);
        self.binary_connector(u, &ends, scope, body);
        if let Some(ms) = &u.body {
            let merge = merge_ends(u);
            self.usage_members(ms, e, body, merge);
        }
    }
}

} // verus!
