//! Reading the elements of a graph.
use crate::naming_ids::{
    alias_name, declared_name, id_name, is_membership, naming_key, naming_link, naming_relationship,
    text_prop,
};
use crate::props::{Link, LinkV, Value, ValueV};
use crate::state::{below, lemma_elem_ok, Builder};
use crate::text::{has_suffix, str_eq};
use vstd::prelude::*;

verus! {

/// An optional text as characters.
pub open spec fn opt_text(o: Option<String>) -> Option<Seq<char>> {
    match o {
        Some(s) => Some(s@),
        None => None,
    }
}

pub open spec fn opt_link(o: Option<Link>) -> Option<LinkV> {
    match o {
        Some(l) => Some(l@),
        None => None,
    }
}

/// The link a property holds.
pub open spec fn link_prop(m: Map<Seq<char>, ValueV>, key: Seq<char>) -> Option<LinkV> {
    if m.contains_key(key) {
        match m[key] {
            ValueV::Ref(l) => Some(l),
            _ => None,
        }
    } else {
        None
    }
}

/// The links a list property holds.
pub open spec fn list_prop(m: Map<Seq<char>, ValueV>, key: Seq<char>) -> Seq<LinkV> {
    if m.contains_key(key) {
        match m[key] {
            ValueV::List(ls) => ls,
            _ => Seq::empty(),
        }
    } else {
        Seq::empty()
    }
}

/// The truth value a property holds.
pub open spec fn flag_prop(m: Map<Seq<char>, ValueV>, key: Seq<char>) -> Option<bool> {
    if m.contains_key(key) {
        m[key].as_bool()
    } else {
        None
    }
}

impl Builder {
    pub fn element_count(&self) -> (r: usize)
        ensures
            r == self@.n(),
    {
        proof {
            reveal(Builder::view);
        }
        self.elements.len()
    }

    pub fn owned_len(&self, e: usize) -> (r: usize)
        requires
            e < self@.n(),
        ensures
            r == self@.elements[e as int].owned.len(),
    {
        proof {
            reveal(Builder::view);
        }
        self.elements[e].owned.len()
    }

    pub fn owned_at(&self, e: usize, i: usize) -> (r: usize)
        requires
            self@.wf(),
            e < self@.n(),
            i < self@.elements[e as int].owned.len(),
        ensures
            r == self@.elements[e as int].owned[i as int],
            e < r < self@.n(),
    {
        proof {
            reveal(Builder::view);
            lemma_elem_ok(self@, e as int);
        }
        self.elements[e].owned[i]
    }

    pub fn child_len(&self, e: usize) -> (r: usize)
        requires
            e < self@.n(),
        ensures
            r == self@.elements[e as int].children.len(),
    {
        proof {
            reveal(Builder::view);
        }
        self.elements[e].children.len()
    }

    pub fn child_at(&self, e: usize, i: usize) -> (r: usize)
        requires
            self@.wf(),
            e < self@.n(),
            i < self@.elements[e as int].children.len(),
        ensures
            r == self@.elements[e as int].children[i as int],
            e < r < self@.n(),
    {
        proof {
            reveal(Builder::view);
            lemma_elem_ok(self@, e as int);
        }
        self.elements[e].children[i]
    }

    /// The relationship that owns an element.
    pub fn owning_of(&self, e: usize) -> (r: Option<usize>)
        requires
            self@.wf(),
            e < self@.n(),
        ensures
            r == self@.elements[e as int].owning,
            below(r, self@.n()),
            r is Some ==> r->0 < e,
    {
        proof {
            reveal(Builder::view);
            lemma_elem_ok(self@, e as int);
        }
        self.elements[e].owning
    }

    /// The element that carries a relationship.
    pub fn carrier_of(&self, e: usize) -> (r: Option<usize>)
        requires
            self@.wf(),
            e < self@.n(),
        ensures
            r == self@.elements[e as int].carrier,
            below(r, self@.n()),
            r is Some ==> r->0 < e,
    {
        proof {
            reveal(Builder::view);
            lemma_elem_ok(self@, e as int);
        }
        self.elements[e].carrier
    }

    pub fn ty_of(&self, e: usize) -> (r: &'static str)
        requires
            e < self@.n(),
        ensures
            r@ == self@.elements[e as int].ty,
    {
        proof {
            reveal(Builder::view);
        }
        self.elements[e].ty
    }

    pub fn has_type(&self, e: usize, ty: &str) -> (r: bool)
        requires
            e < self@.n(),
        ensures
            r == (self@.elements[e as int].ty == ty@),
    {
        str_eq(self.ty_of(e), ty)
    }

    pub fn id_of(&self, e: usize) -> (r: u128)
        requires
            e < self@.n(),
        ensures
            r == self@.elements[e as int].id,
    {
        proof {
            reveal(Builder::view);
        }
        self.elements[e].id
    }

    /// Whether an element is a membership.
    pub fn membership(&self, e: usize) -> (r: bool)
        requires
            e < self@.n(),
        ensures
            r == is_membership(self@.elements[e as int].ty),
    {
        has_suffix(self.ty_of(e), "Membership")
    }

    /// A string property.
    pub fn text_of(&self, e: usize, key: &str) -> (r: Option<String>)
        requires
            e < self@.n(),
        ensures
            opt_text(r) == text_prop(self@.elements[e as int], key@),
    {
        proof {
            reveal(Builder::view);
        }
        match self.elements[e].props.get(key) {
            Some(Value::Str(s)) => Some(s.clone()),
            _ => None,
        }
    }

    /// A boolean property.
    pub fn flag_of(&self, e: usize, key: &str) -> (r: Option<bool>)
        requires
            e < self@.n(),
        ensures
            r == flag_prop(self@.elements[e as int].props, key@),
    {
        proof {
            reveal(Builder::view);
        }
        match self.elements[e].props.get(key) {
            Some(Value::Bool(b)) => Some(*b),
            _ => None,
        }
    }

    /// A single-valued reference property.
    pub fn link_of(&self, e: usize, key: &str) -> (r: Option<Link>)
        requires
            e < self@.n(),
        ensures
            opt_link(r) == link_prop(self@.elements[e as int].props, key@),
    {
        proof {
            reveal(Builder::view);
        }
        match self.elements[e].props.get(key) {
            Some(Value::Ref(l)) => Some(l.duplicate()),
            _ => None,
        }
    }

    /// A multi-valued reference property.
    pub fn links_of(&self, e: usize, key: &str) -> (r: Vec<Link>)
        requires
            e < self@.n(),
        ensures
            crate::props::links_view(r@) == list_prop(self@.elements[e as int].props, key@),
    {
        proof {
            reveal(Builder::view);
        }
        let mut out: Vec<Link> = Vec::new();
        if let Some(Value::List(v)) = self.elements[e].props.get(key) {
            let n: usize = v.len();
            let mut k: usize = 0;
            while k < n
                invariant
                    n == v@.len(),
                    k <= n,
                    crate::props::links_view(out@) == crate::props::links_view(v@).take(k as int),
                decreases n - k,
            {
                out.push(v[k].duplicate());
                assert(
                    crate::props::links_view(v@).take(k + 1) =~= crate::props::links_view(v@).take(k as int).push(v@[k as int]@)
                );
                assert(crate::props::links_view(out@) =~= crate::props::links_view(v@).take(k + 1));
                k += 1;
            }
            assert(crate::props::links_view(out@) =~= crate::props::links_view(v@));
        } else {
            assert(crate::props::links_view(out@) =~= Seq::<LinkV>::empty());
        }
        out
    }

    /// The effective name an element was written with.
    pub fn hint_of(&self, e: usize) -> (r: Option<String>)
        requires
            e < self@.n(),
        ensures
            opt_text(r) == self@.elements[e as int].notes.hint,
    {
        proof {
            reveal(Builder::view);
        }
        match &self.elements[e].notes.hint {
            Some(s) => Some(s.clone()),
            None => None,
        }
    }

    /// The declared name of an element, or else its short name.
    pub fn effective_name(&self, e: usize) -> (r: Option<String>)
        requires
            e < self@.n(),
        ensures
            opt_text(r) == declared_name(self@.elements[e as int]),
    {
        proof {
            reveal(declared_name);
        }
        match self.text_of(e, "declaredName") {
            Some(s) => Some(s),
            None => self.text_of(e, "declaredShortName"),
        }
    }

    /// The name an element's library id derives from.
    pub fn id_name(&self, e: usize) -> (r: Option<String>)
        requires
            e < self@.n(),
        ensures
            opt_text(r) == id_name(self@.elements[e as int]),
    {
        proof {
            reveal(id_name);
        }
        match self.effective_name(e) {
            Some(s) => Some(s),
            None => self.hint_of(e),
        }
    }

    /// The name of an alias membership.
    pub fn alias_name(&self, e: usize) -> (r: Option<String>)
        requires
            e < self@.n(),
        ensures
            opt_text(r) == alias_name(self@.elements[e as int]),
    {
        proof {
            reveal(alias_name);
        }
        match self.text_of(e, "memberName") {
            Some(s) => Some(s),
            None => self.text_of(e, "memberShortName"),
        }
    }

    fn naming_relationship(&self, e: usize) -> (r: Option<usize>)
        requires
            self@.wf(),
            e < self@.n(),
        ensures
            r == naming_relationship(self@, e, 0),
            below(r, self@.n()),
            r is Some ==> naming_key(self@.elements[r->0 as int].ty) is Some,
    {
        let n: usize = self.owned_len(e);
        let mut i: usize = 0;
        while i < n
            invariant
                self@.wf(),
                e < self@.n(),
                n == self@.elements[e as int].owned.len(),
                i <= n,
                naming_relationship(self@, e, 0) == naming_relationship(self@, e, i as int),
            decreases n - i,
        {
            let r: usize = self.owned_at(e, i);
            if self.has_type(r, "Redefinition") || self.has_type(r, "ReferenceSubsetting") {
                return Some(r);
            }
            i += 1;
        }
        None
    }

    /// What the first redefinition or reference subsetting of an element
    /// links to.
    pub fn naming_link(&self, e: usize) -> (r: Option<Link>)
        requires
            self@.wf(),
            e < self@.n(),
        ensures
            opt_link(r) == naming_link(self@, e),
    {
        proof {
            reveal(naming_link);
        }
        match self.naming_relationship(e) {
            Some(r) => {
                if self.has_type(r, "Redefinition") {
                    self.link_of(r, "redefinedFeature")
                } else {
                    self.link_of(r, "referencedFeature")
                }
            },
            None => None,
        }
    }
}

} // verus!
