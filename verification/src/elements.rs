//! Reading single elements: what was declared of them, and what they own.
use crate::assoc::lemma_assoc_missing;
use crate::derive_base::{lists_view, Derivation, DV};
use crate::derive_lists::{get_head, head, holds, unite, united};
use crate::graph_get::{flag_prop, link_prop, list_prop, opt_text};
use crate::lib_names::copy_segs;
use crate::linker::{sites_view, Linker, RefSite};
use crate::linking::{elem_unit, LV};
use crate::metamodel::{Metamodel, MetamodelV};
use crate::names::{entries_view, Binding, Names};
use crate::naming_ids::{declared_name, text_prop};
use crate::navigate::{
    details_view, notes_view, ImportDetail, ImportDetailV, Note, NoteV,
};
use crate::props::{links_view, Link, LinkV};
use crate::rpure::duplicate;
use crate::satisfaction::{members_from, members_under};
use crate::state::{all_below, below, strings_view, Builder, BV};
use crate::text::{ends_with, has_suffix};
use vstd::prelude::*;

verus! {

/// The elements from `i` on that are bound to a value.
pub open spec fn valued_from(g: BV, i: int) -> Seq<usize>
    decreases g.n() - i,
    when 0 <= i
{
    if i >= g.n() {
        Seq::empty()
    } else if g.elements[i].notes.value is Some {
        seq![i as usize] + valued_from(g, i + 1)
    } else {
        valued_from(g, i + 1)
    }
}

impl Builder {
    /// The scope of an element's body.
    pub fn element_scope(&self, e: usize) -> (r: Option<usize>)
        requires
            e < self@.n(),
        ensures
            r == self@.elem_scope(e),
            self@.wf() ==> below(r, self@.ns()),
    {
        self.elem_scope(e)
    }

    /// Whether an element says that it is composite, if it says.
    pub fn is_composite(&self, e: usize) -> (r: Option<bool>)
        requires
            e < self@.n(),
        ensures
            r == flag_prop(self@.elements[e as int].props, "isComposite"@),
    {
        self.flag_of(e, "isComposite")
    }

    /// The metaclass of an element.
    pub fn element_type(&self, e: usize) -> (r: &'static str)
        requires
            e < self@.n(),
        ensures
            r@ == self@.elements[e as int].ty,
    {
        self.ty_of(e)
    }

    /// The declared name of an element.
    pub fn element_name(&self, e: usize) -> (r: Option<String>)
        requires
            e < self@.n(),
        ensures
            opt_text(r) == text_prop(self@.elements[e as int], "declaredName"@),
    {
        self.text_of(e, "declaredName")
    }

    /// The declared short name of an element.
    pub fn element_short_name(&self, e: usize) -> (r: Option<String>)
        requires
            e < self@.n(),
        ensures
            opt_text(r) == text_prop(self@.elements[e as int], "declaredShortName"@),
    {
        self.text_of(e, "declaredShortName")
    }

    /// The declared name or short name, or else the name an unnamed feature
    /// takes from what it redefines or references.
    pub fn element_effective_name(&self, e: usize) -> (r: Option<String>)
        requires
            e < self@.n(),
        ensures
            opt_text(r) == (match declared_name(self@.elements[e as int]) {
                Some(s) => Some(s),
                None => self@.elements[e as int].notes.hint,
            }),
    {
        match self.effective_name(e) {
            Some(s) => Some(s),
            None => self.hint_of(e),
        }
    }

    /// Whether an element is bound to a value.
    pub fn has_value(&self, e: usize) -> (r: bool)
        requires
            e < self@.n(),
        ensures
            r == self@.elements[e as int].notes.value is Some,
    {
        proof {
            reveal(Builder::view);
        }
        self.elements[e].notes.value.is_some()
    }

    /// The elements that are bound to a value.
    pub fn features_with_values(&self) -> (r: Vec<usize>)
        ensures
            r@ == valued_from(self@, 0),
    {
        let mut out: Vec<usize> = Vec::new();
        let n: usize = self.element_count();
        let mut i: usize = 0;
        let ghost whole = valued_from(self@, 0);
        assert(out@ + whole =~= whole);
        while i < n
            invariant
                n == self@.n(),
                i <= n,
                out@ + valued_from(self@, i as int) == whole,
            decreases n - i,
        {
            if self.has_value(i) {
                let ghost before = out@;
                let ghost rest = valued_from(self@, i + 1);
                out.push(i);
                assert(before + (seq![i] + rest) =~= out@ + rest);
            }
            i += 1;
        }
        assert(out@ + Seq::<usize>::empty() =~= out@);
        out
    }

    /// Of a usage, whether it was declared in a featuring context.
    pub fn is_featured_usage(&self, e: usize) -> (r: Option<bool>)
        requires
            e < self@.n(),
        ensures
            r == self@.elements[e as int].notes.featuring,
    {
        proof {
            reveal(Builder::view);
        }
        self.elements[e].notes.featuring
    }

    /// The declared portion kind of an occurrence.
    pub fn portion_kind(&self, e: usize) -> (r: Option<String>)
        requires
            e < self@.n(),
        ensures
            opt_text(r) == text_prop(self@.elements[e as int], "portionKind"@),
    {
        self.text_of(e, "portionKind")
    }

    /// Whether a feature is declared ordered.
    pub fn is_ordered(&self, e: usize) -> (r: bool)
        requires
            e < self@.n(),
        ensures
            r == (flag_prop(self@.elements[e as int].props, "isOrdered"@) == Some(true)),
    {
        match self.flag_of(e, "isOrdered") {
            Some(b) => b,
            None => false,
        }
    }

    /// Whether a feature is unique: it is unless it says otherwise.
    pub fn is_unique(&self, e: usize) -> (r: bool)
        requires
            e < self@.n(),
        ensures
            r == (flag_prop(self@.elements[e as int].props, "isUnique"@) != Some(false)),
    {
        match self.flag_of(e, "isUnique") {
            Some(b) => b,
            None => true,
        }
    }

    /// The direction an element spells.
    pub fn declared_direction(&self, e: usize) -> (r: Option<String>)
        requires
            e < self@.n(),
        ensures
            opt_text(r) == (match text_prop(self@.elements[e as int], "direction"@) {
                Some(s) => if s.len() == 0 {
                    None
                } else {
                    Some(s)
                },
                None => None,
            }),
    {
        match self.text_of(e, "direction") {
            Some(s) => if crate::text::str_eq(s.as_str(), "") {
                proof {
                    reveal_strlit("");
                }
                None
            } else {
                proof {
                    reveal_strlit("");
                    if s@.len() == 0 {
                        assert(s@ =~= ""@);
                    }
                }
                Some(s)
            },
            None => None,
        }
    }

    /// The `in` and `inout` parameters of a calculation, as declared.
    pub fn calc_params(&self, e: usize) -> (r: Vec<String>)
        requires
            e < self@.n(),
        ensures
            strings_view(r@) == self@.elements[e as int].notes.in_params,
    {
        proof {
            reveal(Builder::view);
        }
        let r: Vec<String> = copy_segs(&self.elements[e].notes.in_params);
        proof {
            let from = self.elements@[e as int].notes.in_params@;
            assert(r@.len() == crate::libcache::texts(r@).len());
            assert(from.len() == crate::libcache::texts(from).len());
            assert forall|i: int| 0 <= i < r@.len() implies strings_view(r@)[i] == strings_view(from)[i] by {
                assert(crate::libcache::texts(r@)[i] == crate::libcache::texts(from)[i]);
            }
            assert(strings_view(r@) =~= strings_view(from));
        }
        r
    }

    /// The metadata that annotates an element, as declared.
    pub fn metadata_of(&self, e: usize) -> (r: Vec<usize>)
        requires
            e < self@.n(),
        ensures
            r@ == self@.elements[e as int].notes.metadata,
    {
        proof {
            reveal(Builder::view);
        }
        duplicate(&self.elements[e].notes.metadata)
    }

    /// The metaclass of the membership that owns an element.
    pub fn owning_membership_type(&self, e: usize) -> (r: Option<&'static str>)
        requires
            self@.wf(),
            e < self@.n(),
        ensures
            match r {
                Some(t) => self@.elements[e as int].owning is Some && t@
                    == self@.elements[self@.elements[e as int].owning->0 as int].ty,
                None => self@.elements[e as int].owning is None,
            },
    {
        match self.owning_of(e) {
            Some(rel) => Some(self.ty_of(rel)),
            None => None,
        }
    }
}

/// A `first` marker of a body, or a member.
pub enum BodyFlowMember {
    /// A member that the body owns.
    Member(usize),
    /// A `first` marker: the element it names, or how it spells one that did
    /// not resolve.
    Initial(Option<usize>, Option<String>),
}

pub enum FlowV {
    Member(usize),
    Initial(Option<usize>, Option<Seq<char>>),
}

impl BodyFlowMember {
    pub open spec fn view(&self) -> FlowV {
        match self {
            BodyFlowMember::Member(e) => FlowV::Member(*e),
            BodyFlowMember::Initial(t, s) => FlowV::Initial(*t, opt_text(*s)),
        }
    }
}

pub open spec fn flows_view(s: Seq<BodyFlowMember>) -> Seq<FlowV> {
    s.map_values(|x: BodyFlowMember| x@)
}

pub open spec fn members_flow(s: Seq<usize>) -> Seq<FlowV> {
    s.map_values(|e: usize| FlowV::Member(e))
}

/// A subaction of a state: `entry`, `do` or `exit`, and the action.
pub struct StateSubaction {
    pub kind: String,
    pub action: usize,
}

pub open spec fn subactions_view(s: Seq<StateSubaction>) -> Seq<(Seq<char>, usize)> {
    s.map_values(|x: StateSubaction| (x.kind@, x.action))
}

/// A documentation text with the name it is declared under.
pub struct ElementDoc {
    pub name: Option<String>,
    pub body: String,
}

pub open spec fn docs_view(s: Seq<ElementDoc>) -> Seq<(Option<Seq<char>>, Seq<char>)> {
    s.map_values(|x: ElementDoc| (opt_text(x.name), x.body@))
}

/// An alias with the element it stands for.
pub struct AliasMember {
    pub name: String,
    pub target: usize,
}

pub open spec fn aliases_view(s: Seq<AliasMember>) -> Seq<(Seq<char>, usize)> {
    s.map_values(|x: AliasMember| (x.name@, x.target))
}

impl DV {
    /// The elements of the user's units.
    pub open spec fn user_from(self, e: int) -> Seq<usize>
        decreases self.from - e,
    {
        if e >= self.from {
            Seq::empty()
        } else {
            seq![e as usize] + self.user_from(e + 1)
        }
    }

    /// The elements that links from `k` on name by their ids.
    pub open spec fn named_by_id(self, s: Seq<LinkV>, k: int) -> Seq<usize>
        decreases s.len() - k,
        when 0 <= k
    {
        if k >= s.len() {
            Seq::empty()
        } else {
            let here = match s[k] {
                LinkV::Id(id) => self.by_id(id).elem(),
                LinkV::Name(_) => None,
            };
            (match here {
                Some(e) => seq![e],
                None => Seq::empty(),
            }) + self.named_by_id(s, k + 1)
        }
    }

    /// The elements a list property names by their ids.
    #[verifier::opaque]
    pub open spec fn listed_by_id(self, e: usize, key: Seq<char>) -> Seq<usize> {
        self.named_by_id(list_prop(self.g.elements[e as int].props, key), 0)
    }

    /// What a `first` marker names.
    pub open spec fn initial(self, r: usize) -> FlowV {
        FlowV::Initial(
            self.target(r, "memberElement"@),
            match link_prop(self.g.elements[r as int].props, "memberElement"@) {
                Some(LinkV::Name(s)) => Some(s),
                _ => None,
            },
        )
    }

    /// What the memberships from `k` on bring into a body: their members, or
    /// a `first` marker.
    pub open spec fn flow_from(self, s: Seq<usize>, k: int) -> Seq<FlowV>
        decreases s.len() - k,
        when 0 <= k
    {
        if k >= s.len() {
            Seq::empty()
        } else if !self.ends_membership(s[k]) {
            self.flow_from(s, k + 1)
        } else if self.children(s[k]).len() > 0 {
            members_flow(self.children(s[k])) + self.flow_from(s, k + 1)
        } else if ends_with(self.g.elements[s[k] as int].path, "first"@) {
            seq![self.initial(s[k])] + self.flow_from(s, k + 1)
        } else {
            self.flow_from(s, k + 1)
        }
    }

    /// The subactions under memberships from `k` on.
    pub open spec fn subactions_from(self, s: Seq<usize>, k: int) -> Seq<(Seq<char>, usize)>
        decreases s.len() - k,
        when 0 <= k
    {
        if k >= s.len() {
            Seq::empty()
        } else {
            match (self.text(s[k], "kind"@), self.first_child(s[k])) {
                (Some(kind), Some(c)) => seq![(kind, c)] + self.subactions_from(s, k + 1),
                _ => self.subactions_from(s, k + 1),
            }
        }
    }

    /// The notes among members from `k` on that name no subject of their own.
    pub open spec fn docs_from(self, s: Seq<usize>, k: int) -> Seq<(Option<Seq<char>>, Seq<char>)>
        decreases s.len() - k,
        when 0 <= k
    {
        if k >= s.len() {
            Seq::empty()
        } else {
            match self.note_body(s[k]) {
                Some(b) => if self.of_type(self.owned(s[k]), "Annotation"@).len() == 0 {
                    seq![(self.text(s[k], "declaredName"@), b)] + self.docs_from(s, k + 1)
                } else {
                    self.docs_from(s, k + 1)
                },
                None => self.docs_from(s, k + 1),
            }
        }
    }

    /// The aliases among memberships from `k` on.
    pub open spec fn aliases_from(self, s: Seq<usize>, k: int) -> Seq<(Seq<char>, usize)>
        decreases s.len() - k,
        when 0 <= k
    {
        if k >= s.len() {
            Seq::empty()
        } else {
            match (self.text(s[k], "memberName"@), self.target(s[k], "memberElement"@)) {
                (Some(name), Some(t)) => seq![(name, t)] + self.aliases_from(s, k + 1),
                _ => self.aliases_from(s, k + 1),
            }
        }
    }

    /// The aliases that elements from `e` on declare.
    pub open spec fn all_aliases(self, e: int) -> Seq<(Seq<char>, usize)>
        decreases self.from - e,
    {
        if e >= self.from {
            Seq::empty()
        } else {
            self.aliases_from(
                self.of_type(self.owned(e as usize), "Membership"@),
                0,
            ) + self.all_aliases(e + 1)
        }
    }
}

impl DV {
    /// The name of what a view's rendering refers to.
    #[verifier::opaque]
    pub open spec fn view_rendering(self, view: usize) -> Option<Seq<char>> {
        match head(members_under(self.g, view, "ViewRenderingMembership"@, 0)) {
            Some(m) => match self.rel_target(m, "ReferenceSubsetting"@, "referencedFeature"@) {
                Some(t) => self.text(t, "declaredName"@),
                None => None,
            },
            None => None,
        }
    }
}

impl Derivation {
    /// The name of what a view's rendering refers to.
    pub fn view_rendering(&self, view: usize) -> (r: Option<String>)
        requires
            self.ok(),
            view < self@.n(),
        ensures
            opt_text(r) == self@.view_rendering(view),
    {
        proof {
            reveal(DV::view_rendering);
            reveal(Derivation::view);
            reveal(Derivation::ok);
            reveal(DV::ok);
        }
        match get_head(&self.graph.members_under(view, "ViewRenderingMembership")) {
            Some(m) => match self.rel_target(m, "ReferenceSubsetting", "referencedFeature") {
                Some(t) => self.text(t, "declaredName"),
                None => None,
            },
            None => None,
        }
    }

    /// The elements of the user's units, in document order.
    pub fn user_elements(&self) -> (r: Vec<usize>)
        requires
            self.ok(),
        ensures
            r@ == self@.user_from(self@.lib_boundary as int),
    {
        proof {
            reveal(Derivation::view);
        }
        let mut out: Vec<usize> = Vec::new();
        let mut e: usize = self.lib_boundary;
        let ghost whole = self@.user_from(e as int);
        assert(out@ + whole =~= whole);
        while e < self.from
            invariant
                self.from == self@.from,
                out@ + self@.user_from(e as int) == whole,
            decreases self.from - e,
        {
            let ghost before = out@;
            let ghost rest = self@.user_from(e + 1);
            out.push(e);
            assert(before + (seq![e] + rest) =~= out@ + rest);
            e += 1;
        }
        assert(out@ + Seq::<usize>::empty() =~= out@);
        out
    }

    /// Whether a library unit declares an element.
    pub fn is_library_element(&self, e: usize) -> (r: bool)
        ensures
            r == self@.from_library(e),
    {
        self.from_library(e)
    }

    /// The relationships implied for an element.
    pub fn implied_relationships(&self, e: usize) -> (r: Vec<usize>)
        requires
            self.ok(),
            e < self@.n(),
        ensures
            r@ == self@.implied(e),
            all_below(r@, self@.n()),
    {
        self.implied(e)
    }

    fn elements_listed(&self, e: usize, key: &str) -> (r: Vec<usize>)
        requires
            self.ok(),
            e < self@.n(),
        ensures
            r@ == self@.listed_by_id(e, key@),
            all_below(r@, self@.n()),
    {
        proof {
            reveal(Derivation::view);
            reveal(Derivation::ok);
            reveal(DV::ok);
            reveal(DV::listed_by_id);
        }
        let s: Vec<Link> = self.graph.links_of(e, key);
        let ghost sv = links_view(s@);
        let mut out: Vec<usize> = Vec::new();
        let n: usize = s.len();
        let mut k: usize = 0;
        let ghost whole = self@.named_by_id(sv, 0);
        assert(out@ + whole =~= whole);
        while k < n
            invariant
                self.ok(),
                n == s@.len(),
                sv == links_view(s@),
                k <= n,
                all_below(out@, self@.n()),
                out@ + self@.named_by_id(sv, k as int) == whole,
            decreases n - k,
        {
            let ghost before = out@;
            let ghost rest = self@.named_by_id(sv, k + 1);
            assert(sv[k as int] == s@[k as int]@);
            if let Link::Id(id) = &s[k] {
                if let Some(x) = self.by_id(*id).element() {
                    out.push(x);
                    assert(before + (seq![x] + rest) =~= out@ + rest);
                }
            }
            assert(Seq::<usize>::empty() + rest =~= rest);
            k += 1;
        }
        assert(out@ + Seq::<usize>::empty() =~= out@);
        out
    }

    /// The clients and the suppliers of a dependency, as written; what did
    /// not resolve is left out.
    pub fn dependency_ends(&self, e: usize) -> (r: (Vec<usize>, Vec<usize>))
        requires
            self.ok(),
            e < self@.n(),
        ensures
            r.0@ == self@.listed_by_id(e, "client"@),
            r.1@ == self@.listed_by_id(e, "supplier"@),
    {
        (self.elements_listed(e, "client"), self.elements_listed(e, "supplier"))
    }

    /// The chains that an element's reference subsettings name, one for each.
    pub fn referenced_features(&self, e: usize) -> (r: Vec<Vec<usize>>)
        requires
            self.ok(),
            e < self@.n(),
        ensures
            lists_view(r@) == self@.targets(
                self@.of_type(self@.owned(e), "ReferenceSubsetting"@),
                "referencedFeature"@,
            ).map_values(|t: usize| self@.expand_chain(t)),
    {
        let rels: Vec<usize> = self.of_type(&self.owned(e), "ReferenceSubsetting");
        let s: Vec<usize> = self.targets(&rels, "referencedFeature");
        let ghost want = s@.map_values(|t: usize| self@.expand_chain(t));
        let mut out: Vec<Vec<usize>> = Vec::new();
        let n: usize = s.len();
        let mut k: usize = 0;
        while k < n
            invariant
                self.ok(),
                n == s@.len(),
                all_below(s@, self@.n()),
                want == s@.map_values(|t: usize| self@.expand_chain(t)),
                k <= n,
                lists_view(out@) == want.take(k as int),
            decreases n - k,
        {
            let c: Vec<usize> = self.expand_chain(s[k]);
            let ghost before = lists_view(out@);
            let ghost cv = c@;
            out.push(c);
            assert(lists_view(out@) =~= before.push(cv));
            assert(want[k as int] == cv);
            assert(want.take(k + 1) =~= before.push(cv));
            k += 1;
        }
        assert(want.take(n as int) =~= want);
        out
    }

    /// The entry, do and exit actions of a state, as declared.
    pub fn state_subactions(&self, e: usize) -> (r: Vec<StateSubaction>)
        requires
            self.ok(),
            e < self@.n(),
        ensures
            subactions_view(r@) == self@.subactions_from(
                self@.of_type(self@.owned(e), "StateSubactionMembership"@),
                0,
            ),
    {
        let s: Vec<usize> = self.of_type(&self.owned(e), "StateSubactionMembership");
        let mut out: Vec<StateSubaction> = Vec::new();
        let n: usize = s.len();
        let mut k: usize = 0;
        let ghost whole = self@.subactions_from(s@, 0);
        assert(subactions_view(out@) + whole =~= whole);
        while k < n
            invariant
                self.ok(),
                n == s@.len(),
                all_below(s@, self@.n()),
                k <= n,
                subactions_view(out@) + self@.subactions_from(s@, k as int) == whole,
            decreases n - k,
        {
            let ghost before = subactions_view(out@);
            let ghost rest = self@.subactions_from(s@, k + 1);
            let kind: Option<String> = self.text(s[k], "kind");
            let child: Option<usize> = self.first_child(s[k]);
            if let (Some(kind), Some(action)) = (kind, child) {
                let ghost xv = (kind@, action);
                out.push(StateSubaction { kind, action });
                assert(subactions_view(out@) =~= before.push(xv));
                assert(before + (seq![xv] + rest) =~= subactions_view(out@) + rest);
            }
            k += 1;
        }
        assert(subactions_view(out@) + Seq::<(Seq<char>, usize)>::empty() =~= subactions_view(out@));
        out
    }

    /// The notes on an element itself: those it owns that name no subject.
    pub fn element_docs(&self, e: usize) -> (r: Vec<ElementDoc>)
        requires
            self.ok(),
            e < self@.n(),
        ensures
            docs_view(r@) == self@.docs_from(members_from(self@.g, e, 0), 0),
    {
        proof {
            reveal(Derivation::view);
            reveal(Derivation::ok);
            reveal(DV::ok);
        }
        let s: Vec<usize> = self.graph.members_of(e);
        let mut out: Vec<ElementDoc> = Vec::new();
        let n: usize = s.len();
        let mut k: usize = 0;
        let ghost whole = self@.docs_from(s@, 0);
        assert(docs_view(out@) + whole =~= whole);
        while k < n
            invariant
                self.ok(),
                n == s@.len(),
                all_below(s@, self@.n()),
                k <= n,
                docs_view(out@) + self@.docs_from(s@, k as int) == whole,
            decreases n - k,
        {
            let ghost before = docs_view(out@);
            let ghost rest = self@.docs_from(s@, k + 1);
            if let Some(body) = self.note_body(s[k]) {
                if self.of_type(&self.owned(s[k]), "Annotation").len() == 0 {
                    let x = ElementDoc { name: self.text(s[k], "declaredName"), body };
                    let ghost xv = (opt_text(x.name), x.body@);
                    out.push(x);
                    assert(docs_view(out@) =~= before.push(xv));
                    assert(before + (seq![xv] + rest) =~= docs_view(out@) + rest);
                }
            }
            k += 1;
        }
        assert(docs_view(out@) + Seq::<(Option<Seq<char>>, Seq<char>)>::empty() =~= docs_view(out@));
        out
    }

    fn initial_marker(&self, r: usize) -> (m: BodyFlowMember)
        requires
            self.ok(),
            r < self@.n(),
        ensures
            m@ == self@.initial(r),
    {
        proof {
            reveal(Derivation::view);
        }
        let spelling: Option<String> = match self.graph.link_of(r, "memberElement") {
            Some(Link::Name(s)) => Some(s),
            _ => None,
        };
        BodyFlowMember::Initial(self.target(r, "memberElement"), spelling)
    }

    fn is_first_marker(&self, r: usize) -> (b: bool)
        requires
            r < self@.n(),
        ensures
            b == ends_with(self@.g.elements[r as int].path, "first"@),
    {
        proof {
            reveal(Derivation::view);
            reveal(Builder::view);
        }
        has_suffix(self.graph.elements[r].path.as_str(), "first")
    }

    /// The members of a body with its `first` markers, as declared.
    pub fn body_flow_members(&self, e: usize) -> (r: Vec<BodyFlowMember>)
        requires
            self.ok(),
            e < self@.n(),
        ensures
            flows_view(r@) == self@.flow_from(self@.owned(e), 0),
    {
        let s: Vec<usize> = self.owned(e);
        let mut out: Vec<BodyFlowMember> = Vec::new();
        let n: usize = s.len();
        let mut k: usize = 0;
        let ghost whole = self@.flow_from(s@, 0);
        assert(flows_view(out@) + whole =~= whole);
        while k < n
            invariant
                self.ok(),
                n == s@.len(),
                all_below(s@, self@.n()),
                k <= n,
                flows_view(out@) + self@.flow_from(s@, k as int) == whole,
            decreases n - k,
        {
            let ghost before = flows_view(out@);
            let ghost rest = self@.flow_from(s@, k + 1);
            if self.ends_membership(s[k]) {
                let kids: Vec<usize> = self.children(s[k]);
                if kids.len() > 0 {
                    push_members(&kids, &mut out);
                    assert(before + (members_flow(kids@) + rest) =~= flows_view(out@) + rest);
                } else if self.is_first_marker(s[k]) {
                    let x: BodyFlowMember = self.initial_marker(s[k]);
                    let ghost xv = x@;
                    out.push(x);
                    assert(flows_view(out@) =~= before.push(xv));
                    assert(before + (seq![xv] + rest) =~= flows_view(out@) + rest);
                }
            }
            k += 1;
        }
        assert(flows_view(out@) + Seq::<FlowV>::empty() =~= flows_view(out@));
        out
    }

    fn push_aliases(&self, s: &Vec<usize>, out: &mut Vec<AliasMember>)
        requires
            self.ok(),
            all_below(s@, self@.n()),
        ensures
            aliases_view(final(out)@) == aliases_view(old(out)@) + self@.aliases_from(s@, 0),
    {
        let n: usize = s.len();
        let mut k: usize = 0;
        let ghost whole = aliases_view(out@) + self@.aliases_from(s@, 0);
        while k < n
            invariant
                self.ok(),
                n == s@.len(),
                all_below(s@, self@.n()),
                k <= n,
                aliases_view(out@) + self@.aliases_from(s@, k as int) == whole,
            decreases n - k,
        {
            let ghost before = aliases_view(out@);
            let ghost rest = self@.aliases_from(s@, k + 1);
            let name: Option<String> = self.text(s[k], "memberName");
            let to: Option<usize> = self.target(s[k], "memberElement");
            if let (Some(name), Some(target)) = (name, to) {
                let ghost xv = (name@, target);
                out.push(AliasMember { name, target });
                assert(aliases_view(out@) =~= before.push(xv));
                assert(before + (seq![xv] + rest) =~= aliases_view(out@) + rest);
            }
            k += 1;
        }
        assert(aliases_view(out@) + Seq::<(Seq<char>, usize)>::empty() =~= aliases_view(out@));
    }

    /// The aliases that the user's units declare, with what they stand for.
    pub fn alias_members(&self) -> (r: Vec<AliasMember>)
        requires
            self.ok(),
        ensures
            aliases_view(r@) == self@.all_aliases(self@.lib_boundary as int),
    {
        proof {
            reveal(Derivation::view);
            reveal(Derivation::ok);
            reveal(DV::ok);
        }
        let mut out: Vec<AliasMember> = Vec::new();
        let end: usize = self.from;
        let mut e: usize = self.lib_boundary;
        let ghost whole = self@.all_aliases(e as int);
        assert(aliases_view(out@) + whole =~= whole);
        while e < end
            invariant
                self.ok(),
                end == self@.from,
                end <= self@.n(),
                aliases_view(out@) + self@.all_aliases(e as int) == whole,
            decreases end - e,
        {
            let s: Vec<usize> = self.of_type(&self.owned(e), "Membership");
            let ghost before = aliases_view(out@);
            let ghost here = self@.aliases_from(s@, 0);
            let ghost rest = self@.all_aliases(e + 1);
            self.push_aliases(&s, &mut out);
            assert(before + (here + rest) =~= aliases_view(out@) + rest);
            e += 1;
        }
        assert(aliases_view(out@) + Seq::<(Seq<char>, usize)>::empty() =~= aliases_view(out@));
        out
    }
}

fn push_members(kids: &Vec<usize>, out: &mut Vec<BodyFlowMember>)
    ensures
        flows_view(final(out)@) == flows_view(old(out)@) + members_flow(kids@),
{
    let n: usize = kids.len();
    let mut k: usize = 0;
    let ghost start = flows_view(out@);
    let ghost want = members_flow(kids@);
    assert(start + want.take(0) =~= start);
    while k < n
        invariant
            n == kids@.len(),
            want == members_flow(kids@),
            k <= n,
            flows_view(out@) == start + want.take(k as int),
        decreases n - k,
    {
        let ghost before = flows_view(out@);
        out.push(BodyFlowMember::Member(kids[k]));
        assert(flows_view(out@) =~= before.push(FlowV::Member(kids@[k as int])));
        assert(want[k as int] == FlowV::Member(kids@[k as int]));
        assert(want.take(k + 1) =~= want.take(k as int).push(want[k as int]));
        assert(flows_view(out@) =~= start + want.take(k + 1));
        k += 1;
    }
    assert(want.take(n as int) =~= want);
}

/// The element declared at an offset, among those from `i` on: the one with
/// the narrowest name, the first of several.
pub open spec fn declared_at(
    l: LV,
    unit: usize,
    offset: u32,
    i: int,
    best: Option<(usize, int)>,
) -> Option<usize>
    decreases l.r.n() - i,
    when 0 <= i
{
    if i >= l.r.n() {
        match best {
            Some((e, _)) => Some(e),
            None => None,
        }
    } else {
        declared_at(l, unit, offset, i + 1, nearer(l, unit, offset, i, best))
    }
}

/// The better of an element and the best one before it.
pub open spec fn nearer(
    l: LV,
    unit: usize,
    offset: u32,
    i: int,
    best: Option<(usize, int)>,
) -> Option<(usize, int)> {
    match l.r.g.elements[i].notes.decl_span {
        Some(s) => {
            let within = s.start <= offset < s.end && elem_unit(l.unit_starts, i as usize) == unit;
            if within && (best is None || s.end - s.start < (best->0).1) {
                Some((i as usize, s.end - s.start))
            } else {
                best
            }
        },
        None => best,
    }
}

impl Linker {
    /// The element whose declared name covers an offset of a unit.
    pub fn declaration_at(&self, unit: usize, offset: u32) -> (r: Option<usize>)
        requires
            self@.wf(),
        ensures
            r == declared_at(self@, unit, offset, 0, None),
    {
        let n: usize = self.res.elem_count();
        proof {
            reveal(Linker::view);
        }
        let mut best: Option<(usize, u32)> = None;
        let mut i: usize = 0;
        while i < n
            invariant
                n == self@.r.n(),
                i <= n,
                declared_at(self@, unit, offset, 0, None) == declared_at(
                    self@,
                    unit,
                    offset,
                    i as int,
                    match best {
                        Some((e, w)) => Some((e, w as int)),
                        None => None,
                    },
                ),
            decreases n - i,
        {
            if let Some((u, s)) = self.declaration_site(i) {
                if s.start <= offset && offset < s.end && u == unit {
                    let width: u32 = s.end - s.start;
                    let better: bool = match best {
                        Some((_, w)) => width < w,
                        None => true,
                    };
                    if better {
                        best = Some((i, width));
                    }
                }
            }
            i += 1;
        }
        match best {
            Some((e, _)) => Some(e),
            None => None,
        }
    }
}

/// A note's subject with the note's name and text.
pub struct AnnotationDoc {
    pub about: usize,
    pub name: Option<String>,
    pub body: String,
}

pub open spec fn annotations_view(
    s: Seq<AnnotationDoc>,
) -> Seq<(usize, Option<Seq<char>>, Seq<char>)> {
    s.map_values(|x: AnnotationDoc| (x.about, opt_text(x.name), x.body@))
}

/// What notes say of their subjects.
pub open spec fn said(s: Seq<NoteV>) -> Seq<(usize, Option<Seq<char>>, Seq<char>)> {
    s.map_values(|x: NoteV| (x.about, x.name, x.body))
}

/// The subjects and texts alone.
pub open spec fn bodies_of(s: Seq<(usize, String)>) -> Seq<(usize, Seq<char>)> {
    s.map_values(|x: (usize, String)| (x.0, x.1@))
}

/// The targets of imports, and whether each imports a namespace.
pub open spec fn import_pairs(s: Seq<ImportDetailV>) -> Seq<(usize, bool)> {
    s.map_values(|x: ImportDetailV| (x.target, x.is_namespace))
}

impl Derivation {
    /// The notes of the user's units by what they are about, each with the
    /// name it is declared under.
    pub fn annotation_docs(&self) -> (r: Vec<AnnotationDoc>)
        requires
            self.ok(),
        ensures
            annotations_view(r@) == said(
                self@.notes_from(self@.lib_boundary as int, self@.from as int),
            ),
    {
        let s: Vec<Note> = self.annotation_notes();
        let ghost want = said(notes_view(s@));
        let mut out: Vec<AnnotationDoc> = Vec::new();
        let n: usize = s.len();
        let mut k: usize = 0;
        while k < n
            invariant
                n == s@.len(),
                want == said(notes_view(s@)),
                k <= n,
                annotations_view(out@) == want.take(k as int),
            decreases n - k,
        {
            let x: &Note = &s[k];
            let name: Option<String> = match &x.name {
                Some(t) => Some(t.clone()),
                None => None,
            };
            let ghost before = annotations_view(out@);
            let ghost xv = (x.about, opt_text(x.name), x.body@);
            out.push(AnnotationDoc { about: x.about, name, body: x.body.clone() });
            assert(annotations_view(out@) =~= before.push(xv));
            assert(notes_view(s@)[k as int] == x@);
            assert(want[k as int] == xv);
            assert(want.take(k + 1) =~= before.push(xv));
            k += 1;
        }
        assert(want.take(n as int) =~= want);
        out
    }

    /// The notes of the user's units: what each is about, and its text.
    pub fn annotation_bodies(&self) -> (r: Vec<(usize, String)>)
        requires
            self.ok(),
        ensures
            bodies_of(r@) == self@.notes_from(
                self@.lib_boundary as int,
                self@.from as int,
            ).map_values(|x: NoteV| (x.about, x.body)),
    {
        let s: Vec<Note> = self.annotation_notes();
        let ghost want = notes_view(s@).map_values(|x: NoteV| (x.about, x.body));
        let mut out: Vec<(usize, String)> = Vec::new();
        let n: usize = s.len();
        let mut k: usize = 0;
        while k < n
            invariant
                n == s@.len(),
                want == notes_view(s@).map_values(|x: NoteV| (x.about, x.body)),
                k <= n,
                bodies_of(out@) == want.take(k as int),
            decreases n - k,
        {
            let x: &Note = &s[k];
            let ghost before = bodies_of(out@);
            let ghost xv = (x.about, x.body@);
            out.push((x.about, x.body.clone()));
            assert(bodies_of(out@) =~= before.push(xv));
            assert(notes_view(s@)[k as int] == x@);
            assert(want[k as int] == xv);
            assert(want.take(k + 1) =~= before.push(xv));
            k += 1;
        }
        assert(want.take(n as int) =~= want);
        out
    }

    /// What an element imports, and whether as a namespace.
    pub fn import_targets(&self, e: usize) -> (r: Vec<(usize, bool)>)
        requires
            self.ok(),
            e < self@.n(),
        ensures
            r@ == import_pairs(self@.details_from(self@.owned(e), 0)),
    {
        let s: Vec<ImportDetail> = self.import_details(e);
        let ghost want = import_pairs(details_view(s@));
        let mut out: Vec<(usize, bool)> = Vec::new();
        let n: usize = s.len();
        let mut k: usize = 0;
        while k < n
            invariant
                n == s@.len(),
                want == import_pairs(details_view(s@)),
                k <= n,
                out@ == want.take(k as int),
            decreases n - k,
        {
            let x: &ImportDetail = &s[k];
            assert(details_view(s@)[k as int] == x@);
            out.push((x.target, x.is_namespace));
            assert(want[k as int] == (x.target, x.is_namespace));
            assert(want.take(k + 1) =~= want.take(k as int).push(want[k as int]));
            k += 1;
        }
        assert(want.take(n as int) =~= want);
        out
    }
}

/// Whether an element is a variant of what owns it.
pub open spec fn is_variant(g: BV, e: int) -> bool {
    match g.elements[e].owning {
        Some(r) => g.elements[r as int].ty == "VariantMembership"@,
        None => false,
    }
}

/// Whether bindings hold an element.
pub open spec fn holds_elem(s: Seq<Binding>, e: int) -> bool {
    exists|k: int| 0 <= k < s.len() && (#[trigger] s[k]).elem == e
}

/// Whether a scope declares an element under some name.
pub open spec fn declares(names: Map<Seq<char>, Seq<Binding>>, e: int) -> bool {
    exists|name: Seq<char>| #[trigger] names.contains_key(name) && holds_elem(names[name], e)
}

/// The variants from `i` on that a scope declares.
pub open spec fn variants_from(g: BV, s: int, i: int) -> Seq<usize>
    decreases g.n() - i,
    when 0 <= i
{
    if i >= g.n() {
        Seq::empty()
    } else if is_variant(g, i) && declares(g.scopes[s].names, i) {
        seq![i as usize] + variants_from(g, s, i + 1)
    } else {
        variants_from(g, s, i + 1)
    }
}

/// An element with its finite set of values: an enumeration with its
/// literals, or a variation with its variants.
pub struct EnumType {
    pub element: usize,
    pub values: Vec<usize>,
}

pub open spec fn enums_view(s: Seq<EnumType>) -> Seq<(usize, Seq<usize>)> {
    s.map_values(|x: EnumType| (x.element, x.values@))
}

/// The enumerations and variations from the element `i` on.
pub open spec fn enums_from(g: BV, i: int) -> Seq<(usize, Seq<usize>)>
    decreases g.n() - i,
    when 0 <= i
{
    if i >= g.n() {
        Seq::empty()
    } else {
        match g.elements[i].notes.scope {
            Some(s) => {
                let values = variants_from(g, s as int, 0);
                if g.elements[i].ty == "EnumerationDefinition"@ || values.len() > 0 {
                    seq![(i as usize, values)] + enums_from(g, i + 1)
                } else {
                    enums_from(g, i + 1)
                }
            },
            None => enums_from(g, i + 1),
        }
    }
}

fn has_elem(s: &Vec<Binding>, e: usize) -> (r: bool)
    ensures
        r == holds_elem(s@, e as int),
{
    let n: usize = s.len();
    let mut k: usize = 0;
    while k < n
        invariant
            n == s@.len(),
            k <= n,
            forall|j: int| 0 <= j < k ==> (#[trigger] s@[j]).elem != e,
        decreases n - k,
    {
        if s[k].elem == e {
            return true;
        }
        k += 1;
    }
    false
}

fn declares_elem(names: &Names, e: usize) -> (r: bool)
    ensures
        r == declares(names@, e as int),
{
    let n: usize = names.entries.len();
    let mut i: usize = 0;
    while i < n
        invariant
            n == names.entries@.len(),
            i <= n,
            forall|j: int|
                0 <= j < i ==> !names@.contains_key((#[trigger] names.entries@[j]).name@) || !holds_elem(
                    names@[names.entries@[j].name@],
                    e as int,
                ),
        decreases n - i,
    {
        if let Some(b) = names.get(names.entries[i].name.as_str()) {
            if has_elem(b, e) {
                return true;
            }
        }
        i += 1;
    }
    proof {
        let s = entries_view(names.entries@);
        assert forall|name: Seq<char>| #[trigger] names@.contains_key(name) implies !holds_elem(
            names@[name],
            e as int,
        ) by {
            if forall|j: int| 0 <= j < s.len() ==> (#[trigger] s[j]).0 != name {
                lemma_assoc_missing(s, name);
            } else {
                let j = choose|j: int| 0 <= j < s.len() && (#[trigger] s[j]).0 == name;
                assert(names.entries@[j].name@ == name);
            }
        }
    }
    false
}

impl Builder {
    fn is_variant(&self, e: usize) -> (r: bool)
        requires
            self@.wf(),
            e < self@.n(),
        ensures
            r == is_variant(self@, e as int),
    {
        match self.owning_of(e) {
            Some(rel) => self.has_type(rel, "VariantMembership"),
            None => false,
        }
    }

    fn variants_in(&self, s: usize) -> (r: Vec<usize>)
        requires
            self@.wf(),
            s < self@.ns(),
        ensures
            r@ == variants_from(self@, s as int, 0),
    {
        let mut out: Vec<usize> = Vec::new();
        let n: usize = self.element_count();
        let mut i: usize = 0;
        let ghost whole = variants_from(self@, s as int, 0);
        assert(out@ + whole =~= whole);
        while i < n
            invariant
                self@.wf(),
                s < self@.ns(),
                n == self@.n(),
                i <= n,
                out@ + variants_from(self@, s as int, i as int) == whole,
            decreases n - i,
        {
            if self.is_variant(i) {
                proof {
                    reveal(Builder::view);
                    assert(self@.scopes[s as int].names == self.scopes@[s as int].names@);
                }
                if declares_elem(&self.scopes[s].names, i) {
                    let ghost before = out@;
                    let ghost rest = variants_from(self@, s as int, i + 1);
                    out.push(i);
                    assert(before + (seq![i] + rest) =~= out@ + rest);
                }
            }
            i += 1;
        }
        assert(out@ + Seq::<usize>::empty() =~= out@);
        out
    }

    /// The enumerations with their literals and the variations with their
    /// variants, in element order.
    pub fn enum_types(&self) -> (r: Vec<EnumType>)
        requires
            self@.wf(),
        ensures
            enums_view(r@) == enums_from(self@, 0),
    {
        let mut out: Vec<EnumType> = Vec::new();
        let n: usize = self.element_count();
        let mut i: usize = 0;
        let ghost whole = enums_from(self@, 0);
        assert(enums_view(out@) + whole =~= whole);
        while i < n
            invariant
                self@.wf(),
                n == self@.n(),
                i <= n,
                enums_view(out@) + enums_from(self@, i as int) == whole,
            decreases n - i,
        {
            if let Some(s) = self.elem_scope(i) {
                let values: Vec<usize> = self.variants_in(s);
                if self.has_type(i, "EnumerationDefinition") || values.len() > 0 {
                    let ghost before = enums_view(out@);
                    let ghost rest = enums_from(self@, i + 1);
                    let ghost xv = (i, values@);
                    out.push(EnumType { element: i, values });
                    assert(enums_view(out@) =~= before.push(xv));
                    assert(before + (seq![xv] + rest) =~= enums_view(out@) + rest);
                }
            }
            i += 1;
        }
        assert(enums_view(out@) + Seq::<(usize, Seq<usize>)>::empty() =~= enums_view(out@));
        out
    }
}

/// The relationships that own elements from `k` on, each once, after those of
/// `acc`.
pub open spec fn owning_from(g: BV, s: Seq<usize>, k: int, acc: Seq<usize>) -> Seq<usize>
    decreases s.len() - k,
    when 0 <= k
{
    if k >= s.len() {
        acc
    } else {
        owning_from(
            g,
            s,
            k + 1,
            match g.elements[s[k] as int].owning {
                Some(r) => if acc.contains(r) {
                    acc
                } else {
                    acc.push(r)
                },
                None => acc,
            },
        )
    }
}

impl Builder {
    /// The memberships that imports bring in: those that own the imported
    /// members, then the imported alias memberships, each once.
    pub fn brought_memberships(
        &self,
        members: &Vec<usize>,
        aliases: &Vec<usize>,
    ) -> (r: Vec<usize>)
        requires
            self@.wf(),
            all_below(members@, self@.n()),
        ensures
            r@ == united(owning_from(self@, members@, 0, Seq::empty()), aliases@),
            all_below(aliases@, self@.n()) ==> all_below(r@, self@.n()),
    {
        let mut out: Vec<usize> = Vec::new();
        let n: usize = members.len();
        let mut k: usize = 0;
        let ghost whole = owning_from(self@, members@, 0, Seq::empty());
        assert(out@ =~= Seq::<usize>::empty());
        while k < n
            invariant
                self@.wf(),
                all_below(members@, self@.n()),
                n == members@.len(),
                k <= n,
                owning_from(self@, members@, k as int, out@) == whole,
                all_below(out@, self@.n()),
            decreases n - k,
        {
            assert(members@[k as int] < self@.n());
            if let Some(r) = self.owning_of(members[k]) {
                if !holds(&out, r) {
                    out.push(r);
                }
            }
            k += 1;
        }
        unite(out, aliases)
    }
}

/// The elements from `i` on that `t` owns as features: through a membership
/// whose metaclass has an owned member feature.
pub open spec fn features_from(g: BV, mm: MetamodelV, t: usize, i: int) -> Seq<usize>
    decreases g.n() - i,
    when 0 <= i
{
    if i >= g.n() {
        Seq::empty()
    } else if owned_as_feature(g, mm, i, t) {
        seq![i as usize] + features_from(g, mm, t, i + 1)
    } else {
        features_from(g, mm, t, i + 1)
    }
}

pub open spec fn owned_as_feature(g: BV, mm: MetamodelV, i: int, t: usize) -> bool {
    match g.elements[i].owning {
        Some(r) => g.elements[r as int].carrier == Some(t) && mm.carries(
            g.elements[r as int].ty,
            "ownedMemberFeature"@,
        ),
        None => false,
    }
}

impl Builder {
    /// The elements an element owns through its memberships.
    pub fn owned_members(&self, e: usize) -> (r: Vec<usize>)
        requires
            self@.wf(),
        ensures
            r@ == members_from(self@, e, 0),
            all_below(r@, self@.n()),
    {
        self.members_of(e)
    }

    /// The features an element owns.
    pub fn owned_features(&self, mm: &Metamodel, e: usize) -> (r: Vec<usize>)
        requires
            self@.wf(),
        ensures
            r@ == features_from(self@, mm@, e, 0),
    {
        let mut out: Vec<usize> = Vec::new();
        let n: usize = self.element_count();
        let mut i: usize = 0;
        let ghost whole = features_from(self@, mm@, e, 0);
        assert(out@ + whole =~= whole);
        while i < n
            invariant
                self@.wf(),
                n == self@.n(),
                i <= n,
                out@ + features_from(self@, mm@, e, i as int) == whole,
            decreases n - i,
        {
            let ghost before = out@;
            let ghost rest = features_from(self@, mm@, e, i + 1);
            if let Some(r) = self.owning_of(i) {
                if let Some(c) = self.carrier_of(r) {
                    if c == e && mm.carries(self.ty_of(r), "ownedMemberFeature") {
                        out.push(i);
                        assert(before + (seq![i] + rest) =~= out@ + rest);
                    }
                }
            }
            i += 1;
        }
        assert(out@ + Seq::<usize>::empty() =~= out@);
        out
    }

    /// The id of an element.
    pub fn element_id(&self, e: usize) -> (r: u128)
        requires
            e < self@.n(),
        ensures
            r == self@.elements[e as int].id,
    {
        self.id_of(e)
    }
}

impl Linker {
    /// The reference sites of the user's units, in source order.
    pub fn reference_sites(&self) -> (r: &Vec<RefSite>)
        ensures
            sites_view(r@) == self@.sites,
    {
        proof {
            reveal(Linker::view);
        }
        &self.sites
    }
}

} // verus!
