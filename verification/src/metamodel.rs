//! The abstract syntax as data: which metaclass specializes which, which
//! properties each metaclass carries and whether they are derived, and what
//! can be computed of the derived ones.
use crate::derived_table::{
    approximate_names, approximate_names_list, exact_names, exact_names_list, gated_kinds,
    gated_kinds_list, gated_names, gated_names_list, hand_written, is_exact, is_hand_written,
    is_listed, is_passthrough, listed, member_side_kinds, member_side_kinds_list, member_side_names,
    member_side_names_list, names_view, passthrough_names, passthrough_names_list,
};
use crate::text::str_eq;
use vstd::prelude::*;

verus! {

/// How the derived properties treat the inheritance and import closures.
#[derive(Clone, Copy, Debug, PartialEq, Eq, Structural)]
pub enum ClosurePolicy {
    /// The owned side only.
    Passthrough,
    /// The closures, with or without the implied heritage.
    Closure { include_implied: bool },
}

impl ClosurePolicy {
    /// Whether the closures are read and, if so, the implied heritage too.
    pub open spec fn implied(self) -> Option<bool> {
        match self {
            ClosurePolicy::Passthrough => None,
            ClosurePolicy::Closure { include_implied } => Some(include_implied),
        }
    }

    pub fn include_implied(self) -> (r: Option<bool>)
        ensures
            r == self.implied(),
    {
        match self {
            ClosurePolicy::Passthrough => None,
            ClosurePolicy::Closure { include_implied } => Some(include_implied),
        }
    }
}

/// The answer to whether a derived property is computed on a metaclass.
#[derive(Clone, Copy, Debug, PartialEq, Eq, Structural)]
pub enum Derives {
    /// The metaclass does not declare the name as a derived property.
    NotDeclared,
    /// Declared and not computed.
    NotComputed,
    /// Computed on the owned side only.
    Passthrough,
    /// Computed as specified.
    Exact,
}

/// The shape the interchange schema gives a property.
#[derive(Clone, Copy, Debug, PartialEq, Eq, Structural)]
pub enum PropertyShape {
    Array,
    Boolean,
    Nullable,
    Scalar,
    Enumeration,
    RequiredReference,
}

/// One row of the property catalog.
#[derive(Clone, Copy, Debug, PartialEq, Eq)]
pub struct CatalogEntry {
    pub metaclass: &'static str,
    pub property: &'static str,
    pub shape: PropertyShape,
    /// Whether the abstract syntax owns the property there or derives it.
    pub owned: bool,
}

pub struct CatalogEntryV {
    pub metaclass: Seq<char>,
    pub property: Seq<char>,
    pub shape: PropertyShape,
    pub owned: bool,
}

impl CatalogEntry {
    pub open spec fn view(&self) -> CatalogEntryV {
        CatalogEntryV {
            metaclass: self.metaclass@,
            property: self.property@,
            shape: self.shape,
            owned: self.owned,
        }
    }
}

/// A property of a metaclass.
#[derive(Clone, Copy, Debug, PartialEq, Eq)]
pub struct PropertyRow {
    pub name: &'static str,
    pub shape: PropertyShape,
}

/// The properties the schema declares on a metaclass.
pub struct ClassProps {
    pub metaclass: &'static str,
    pub props: Vec<PropertyRow>,
}

/// A metaclass and those it directly specializes.
pub struct ClassSupers {
    pub metaclass: &'static str,
    pub supers: Vec<&'static str>,
}

/// A derived name that some metaclasses own.
pub struct OwnedOn {
    pub name: &'static str,
    pub classes: Vec<&'static str>,
}

/// A kind-filtered composition: `name` is the part of `base` that conforms to
/// `kind`, its first item only where `single`.
#[derive(Clone, Copy, Debug, PartialEq, Eq)]
pub struct Composition {
    pub name: &'static str,
    pub base: &'static str,
    pub kind: &'static str,
    pub single: bool,
}

/// The tables of the abstract syntax.
pub struct Metamodel {
    pub hierarchy: Vec<ClassSupers>,
    pub class_props: Vec<ClassProps>,
    pub abstract_metaclasses: Vec<&'static str>,
    pub derived_names: Vec<&'static str>,
    pub owned_on: Vec<OwnedOn>,
    pub compositions: Vec<Composition>,
}

pub type PropertyV = (Seq<char>, PropertyShape);

pub struct CompositionV {
    pub name: Seq<char>,
    pub base: Seq<char>,
    pub kind: Seq<char>,
    pub single: bool,
}

pub struct MetamodelV {
    pub hierarchy: Seq<(Seq<char>, Seq<Seq<char>>)>,
    pub class_props: Seq<(Seq<char>, Seq<PropertyV>)>,
    pub abstract_metaclasses: Seq<Seq<char>>,
    pub derived_names: Seq<Seq<char>>,
    pub owned_on: Seq<(Seq<char>, Seq<Seq<char>>)>,
    pub compositions: Seq<CompositionV>,
}

pub open spec fn props_view(v: Seq<PropertyRow>) -> Seq<PropertyV> {
    Seq::new(v.len(), |i: int| (v[i].name@, v[i].shape))
}

impl Composition {
    pub open spec fn view(&self) -> CompositionV {
        CompositionV { name: self.name@, base: self.base@, kind: self.kind@, single: self.single }
    }
}

impl Metamodel {
    pub open spec fn view(&self) -> MetamodelV {
        MetamodelV {
            hierarchy: Seq::new(
                self.hierarchy@.len(),
                |i: int| (self.hierarchy@[i].metaclass@, names_view(self.hierarchy@[i].supers@)),
            ),
            class_props: Seq::new(
                self.class_props@.len(),
                |i: int| (self.class_props@[i].metaclass@, props_view(self.class_props@[i].props@)),
            ),
            abstract_metaclasses: names_view(self.abstract_metaclasses@),
            derived_names: names_view(self.derived_names@),
            owned_on: Seq::new(
                self.owned_on@.len(),
                |i: int| (self.owned_on@[i].name@, names_view(self.owned_on@[i].classes@)),
            ),
            compositions: Seq::new(self.compositions@.len(), |i: int| self.compositions@[i]@),
        }
    }
}

impl MetamodelV {
    /// The metaclasses that `class` directly specializes.
    pub open spec fn specializes(self, class: Seq<char>, general: Seq<char>) -> bool {
        exists|i: int, k: int|
            0 <= i < self.hierarchy.len() && 0 <= k < (#[trigger] self.hierarchy[i]).1.len()
                && self.hierarchy[i].0 == class && #[trigger] self.hierarchy[i].1[k] == general
    }

    /// Whether `general` is reached from `class` in at most `steps` steps of
    /// direct specialization.
    pub open spec fn reaches(self, class: Seq<char>, general: Seq<char>, steps: nat) -> bool
        decreases steps,
    {
        ||| class == general
        ||| steps > 0 && exists|mid: Seq<char>|
            #[trigger] self.specializes(class, mid) && self.reaches(mid, general, (steps - 1) as nat)
    }

    /// Whether `class` is `general` or specializes it.
    pub open spec fn conforms(self, class: Seq<char>, general: Seq<char>) -> bool {
        self.reaches(class, general, self.hierarchy.len())
    }

    /// Whether `class` carries the property `name`, owned or derived.
    pub open spec fn carries(self, class: Seq<char>, name: Seq<char>) -> bool {
        exists|i: int, k: int|
            0 <= i < self.class_props.len() && 0 <= k < (#[trigger] self.class_props[i]).1.len()
                && self.class_props[i].0 == class && (#[trigger] self.class_props[i].1[k]).0 == name
    }

    /// Whether `class` owns a name that is derived elsewhere.
    pub open spec fn owns(self, class: Seq<char>, name: Seq<char>) -> bool {
        exists|i: int|
            0 <= i < self.owned_on.len() && (#[trigger] self.owned_on[i]).0 == name && listed(
                self.owned_on[i].1,
                class,
            )
    }

    /// Whether `name` is a derived property of `class`.
    pub open spec fn declared(self, class: Seq<char>, name: Seq<char>) -> bool {
        self.carries(class, name) && listed(self.derived_names, name) && !self.owns(class, name)
    }

    /// The composition of `name`, if any: the first from row `k` on.
    pub open spec fn composition_from(self, name: Seq<char>, k: int) -> Option<CompositionV>
        decreases self.compositions.len() - k,
    {
        if k < 0 || k >= self.compositions.len() {
            None
        } else if self.compositions[k].name == name {
            Some(self.compositions[k])
        } else {
            self.composition_from(name, k + 1)
        }
    }

    pub open spec fn composition(self, name: Seq<char>) -> Option<CompositionV> {
        self.composition_from(name, 0)
    }

    /// The membership kind under which `name` is the owned member on `class`.
    pub open spec fn member_side_from(self, class: Seq<char>, name: Seq<char>, k: int) -> Option<
        Seq<char>,
    >
        decreases member_side_names().len() - k,
    {
        if k < 0 || k >= member_side_names().len() {
            None
        } else if member_side_names()[k] == name && self.conforms(class, member_side_kinds()[k]) {
            Some(member_side_kinds()[k])
        } else {
            self.member_side_from(class, name, k + 1)
        }
    }

    pub open spec fn member_side(self, class: Seq<char>, name: Seq<char>) -> Option<Seq<char>> {
        self.member_side_from(class, name, 0)
    }

    /// The fidelity of a gated name on the first listed kind that `class`
    /// conforms to.
    pub open spec fn gated_from(self, class: Seq<char>, name: Seq<char>, k: int) -> Derives
        decreases gated_names().len() - k,
    {
        if k < 0 || k >= gated_names().len() {
            Derives::NotComputed
        } else if gated_names()[k] == name && self.conforms(class, gated_kinds()[k]) {
            gated_fidelity(k)
        } else {
            self.gated_from(class, name, k + 1)
        }
    }

    /// The fidelity of a declared name: a member-side name is exact, a gated
    /// one goes by its kind, a hand-written one by its list, a composition by
    /// its base on the same metaclass.
    pub open spec fn fidelity(self, class: Seq<char>, name: Seq<char>, depth: nat) -> Derives
        decreases 9 - depth,
    {
        if self.member_side(class, name) is Some {
            Derives::Exact
        } else if listed(gated_names(), name) {
            self.gated_from(class, name, 0)
        } else if listed(exact_names(), name) {
            Derives::Exact
        } else if listed(passthrough_names(), name) {
            Derives::Passthrough
        } else {
            match self.composition(name) {
                Some(c) => if depth > 8 {
                    Derives::NotComputed
                } else if c.base == "ownedRelationship"@ {
                    if self.carries(class, c.base) {
                        Derives::Exact
                    } else {
                        Derives::NotComputed
                    }
                } else if !self.declared(class, c.base) {
                    Derives::NotComputed
                } else {
                    computed_or_not(self.fidelity(class, c.base, depth + 1))
                },
                None => Derives::NotComputed,
            }
        }
    }

    /// What is answered for `name` on `class` under a closure policy.
    pub open spec fn derives_under(
        self,
        class: Seq<char>,
        name: Seq<char>,
        policy: ClosurePolicy,
    ) -> Derives {
        if !self.declared(class, name) {
            Derives::NotDeclared
        } else {
            let f = self.fidelity(class, name, 0);
            if f == Derives::Passthrough && policy.implied() == Some(true) && !listed(
                approximate_names(),
                name,
            ) {
                Derives::Exact
            } else {
                f
            }
        }
    }

    /// The catalog rows of the metaclass at row `i`, from property `k` on.
    pub open spec fn class_rows(self, i: int, k: int) -> Seq<CatalogEntryV>
        decreases self.class_props[i].1.len() - k,
    {
        let (class, props) = self.class_props[i];
        if k < 0 || k >= props.len() {
            Seq::empty()
        } else {
            seq![
                CatalogEntryV {
                    metaclass: class,
                    property: props[k].0,
                    shape: props[k].1,
                    owned: !self.declared(class, props[k].0),
                },
            ] + self.class_rows(i, k + 1)
        }
    }

    /// The catalog from metaclass row `i` on, abstract metaclasses left out.
    pub open spec fn catalog_from(self, i: int) -> Seq<CatalogEntryV>
        decreases self.class_props.len() - i,
    {
        if i < 0 || i >= self.class_props.len() {
            Seq::empty()
        } else if listed(self.abstract_metaclasses, self.class_props[i].0) {
            self.catalog_from(i + 1)
        } else {
            self.class_rows(i, 0) + self.catalog_from(i + 1)
        }
    }

    /// The composed names from row `k` on that have no computation of their
    /// own.
    pub open spec fn composed_names(self, k: int) -> Seq<Seq<char>>
        decreases self.compositions.len() - k,
    {
        if k < 0 || k >= self.compositions.len() {
            Seq::empty()
        } else if hand_written(self.compositions[k].name) {
            self.composed_names(k + 1)
        } else {
            seq![self.compositions[k].name] + self.composed_names(k + 1)
        }
    }

    /// The member-side names from row `k` on that nothing else computes.
    pub open spec fn lone_member_names(self, k: int) -> Seq<Seq<char>>
        decreases member_side_names().len() - k,
    {
        if k < 0 || k >= member_side_names().len() {
            Seq::empty()
        } else if hand_written(member_side_names()[k]) || self.composition(member_side_names()[k]) is Some {
            self.lone_member_names(k + 1)
        } else {
            seq![member_side_names()[k]] + self.lone_member_names(k + 1)
        }
    }

    /// Every derived name that is computed on some metaclass.
    pub open spec fn computed_names(self) -> Seq<Seq<char>> {
        exact_names() + passthrough_names() + self.composed_names(0) + self.lone_member_names(0)
    }
}

/// The fidelity of the gated name at row `k`.
pub open spec fn gated_fidelity(k: int) -> Derives {
    if k == 1 || k == 2 {
        Derives::Exact
    } else {
        Derives::Passthrough
    }
}

/// A composition over a base that is not computed is not computed either.
pub open spec fn computed_or_not(f: Derives) -> Derives {
    match f {
        Derives::NotDeclared => Derives::NotComputed,
        _ => f,
    }
}

impl Metamodel {
    fn reaches(&self, class: &str, general: &str, steps: usize) -> (r: bool)
        ensures
            r == self@.reaches(class@, general@, steps as nat),
        decreases steps,
    {
        if str_eq(class, general) {
            return true;
        }
        if steps == 0 {
            return false;
        }
        let n: usize = self.hierarchy.len();
        let mut i: usize = 0;
        while i < n
            invariant
                n == self.hierarchy@.len(),
                i <= n,
                steps > 0,
                class@ != general@,
                forall|a: int, b: int|
                    0 <= a < i && 0 <= b < (#[trigger] self@.hierarchy[a]).1.len()
                        && self@.hierarchy[a].0 == class@ ==> !self@.reaches(
                        #[trigger] self@.hierarchy[a].1[b],
                        general@,
                        (steps - 1) as nat,
                    ),
            decreases n - i,
        {
            if str_eq(self.hierarchy[i].metaclass, class) {
                let m: usize = self.hierarchy[i].supers.len();
                let mut k: usize = 0;
                while k < m
                    invariant
                        n == self.hierarchy@.len(),
                        i < n,
                        steps > 0,
                        class@ != general@,
                        m == self.hierarchy@[i as int].supers@.len(),
                        k <= m,
                        self@.hierarchy[i as int].0 == class@,
                        forall|b: int|
                            0 <= b < k ==> !self@.reaches(
                                #[trigger] self@.hierarchy[i as int].1[b],
                                general@,
                                (steps - 1) as nat,
                            ),
                    decreases m - k,
                {
                    let mid: &'static str = self.hierarchy[i].supers[k];
                    assert(self@.hierarchy[i as int].1[k as int] == mid@);
                    if self.reaches(mid, general, steps - 1) {
                        assert(self@.specializes(class@, mid@));
                        return true;
                    }
                    k += 1;
                }
            }
            i += 1;
        }
        false
    }

    pub fn conforms(&self, class: &str, general: &str) -> (r: bool)
        ensures
            r == self@.conforms(class@, general@),
    {
        self.reaches(class, general, self.hierarchy.len())
    }

    pub fn carries(&self, class: &str, name: &str) -> (r: bool)
        ensures
            r == self@.carries(class@, name@),
    {
        let n: usize = self.class_props.len();
        let mut i: usize = 0;
        while i < n
            invariant
                n == self.class_props@.len(),
                i <= n,
                forall|a: int, b: int|
                    0 <= a < i && 0 <= b < (#[trigger] self@.class_props[a]).1.len()
                        && self@.class_props[a].0 == class@ ==> (
                    #[trigger] self@.class_props[a].1[b]).0 != name@,
            decreases n - i,
        {
            if str_eq(self.class_props[i].metaclass, class) {
                let m: usize = self.class_props[i].props.len();
                let mut k: usize = 0;
                while k < m
                    invariant
                        n == self.class_props@.len(),
                        i < n,
                        m == self.class_props@[i as int].props@.len(),
                        k <= m,
                        self@.class_props[i as int].0 == class@,
                        forall|b: int|
                            0 <= b < k ==> (#[trigger] self@.class_props[i as int].1[b]).0 != name@,
                    decreases m - k,
                {
                    if str_eq(self.class_props[i].props[k].name, name) {
                        assert(self@.class_props[i as int].1[k as int].0 == name@);
                        return true;
                    }
                    k += 1;
                }
            }
            i += 1;
        }
        false
    }

    fn owns(&self, class: &str, name: &str) -> (r: bool)
        ensures
            r == self@.owns(class@, name@),
    {
        let n: usize = self.owned_on.len();
        let mut i: usize = 0;
        while i < n
            invariant
                n == self.owned_on@.len(),
                i <= n,
                forall|a: int|
                    0 <= a < i && (#[trigger] self@.owned_on[a]).0 == name@ ==> !listed(
                        self@.owned_on[a].1,
                        class@,
                    ),
            decreases n - i,
        {
            if str_eq(self.owned_on[i].name, name) && is_listed(&self.owned_on[i].classes, class) {
                assert(self@.owned_on[i as int].0 == name@);
                return true;
            }
            assert(self@.owned_on[i as int].1 == names_view(self.owned_on@[i as int].classes@));
            i += 1;
        }
        false
    }

    pub fn declared(&self, class: &str, name: &str) -> (r: bool)
        ensures
            r == self@.declared(class@, name@),
    {
        self.carries(class, name) && is_listed(&self.derived_names, name) && !self.owns(class, name)
    }

    pub fn composition(&self, name: &str) -> (r: Option<Composition>)
        ensures
            self@.composition(name@) == (match r {
                Some(c) => Some(c@),
                None => None,
            }),
    {
        let n: usize = self.compositions.len();
        let mut i: usize = 0;
        while i < n
            invariant
                n == self.compositions@.len(),
                i <= n,
                self@.composition(name@) == self@.composition_from(name@, i as int),
            decreases n - i,
        {
            if str_eq(self.compositions[i].name, name) {
                return Some(self.compositions[i]);
            }
            i += 1;
        }
        None
    }

    pub fn member_side(&self, class: &str, name: &str) -> (r: Option<&'static str>)
        ensures
            self@.member_side(class@, name@) == (match r {
                Some(k) => Some(k@),
                None => None,
            }),
    {
        let names: Vec<&'static str> = member_side_names_list();
        let kinds: Vec<&'static str> = member_side_kinds_list();
        proof {
            lemma_pair_tables();
            assert(names_view(names@).len() == names@.len());
            assert(names_view(kinds@).len() == kinds@.len());
        }
        let n: usize = names.len();
        let mut i: usize = 0;
        while i < n
            invariant
                n == names@.len(),
                n == kinds@.len(),
                names_view(names@) == member_side_names(),
                names_view(kinds@) == member_side_kinds(),
                i <= n,
                self@.member_side(class@, name@) == self@.member_side_from(class@, name@, i as int),
            decreases n - i,
        {
            assert(member_side_names()[i as int] == names@[i as int]@);
            assert(member_side_kinds()[i as int] == kinds@[i as int]@);
            if str_eq(names[i], name) && self.conforms(class, kinds[i]) {
                return Some(kinds[i]);
            }
            i += 1;
        }
        assert(names_view(names@).len() == n);
        None
    }

    fn gated(&self, class: &str, name: &str) -> (r: Derives)
        ensures
            r == self@.gated_from(class@, name@, 0),
    {
        let names: Vec<&'static str> = gated_names_list();
        let kinds: Vec<&'static str> = gated_kinds_list();
        proof {
            lemma_pair_tables();
            assert(names_view(names@).len() == names@.len());
            assert(names_view(kinds@).len() == kinds@.len());
        }
        let n: usize = names.len();
        let mut i: usize = 0;
        while i < n
            invariant
                n == names@.len(),
                n == kinds@.len(),
                names_view(names@) == gated_names(),
                names_view(kinds@) == gated_kinds(),
                i <= n,
                self@.gated_from(class@, name@, 0) == self@.gated_from(class@, name@, i as int),
            decreases n - i,
        {
            assert(gated_names()[i as int] == names@[i as int]@);
            assert(gated_kinds()[i as int] == kinds@[i as int]@);
            if str_eq(names[i], name) && self.conforms(class, kinds[i]) {
                return if i == 1 || i == 2 {
                    Derives::Exact
                } else {
                    Derives::Passthrough
                };
            }
            i += 1;
        }
        assert(names_view(names@).len() == n);
        Derives::NotComputed
    }

    fn composed_fidelity(&self, class: &str, c: Composition, depth: usize) -> (r: Derives)
        ensures
            r == (if depth > 8 {
                Derives::NotComputed
            } else if c@.base == "ownedRelationship"@ {
                if self@.carries(class@, c@.base) {
                    Derives::Exact
                } else {
                    Derives::NotComputed
                }
            } else if !self@.declared(class@, c@.base) {
                Derives::NotComputed
            } else {
                computed_or_not(self@.fidelity(class@, c@.base, (depth + 1) as nat))
            }),
        decreases 9 - depth, 0nat,
    {
        if depth > 8 {
            return Derives::NotComputed;
        }
        if str_eq(c.base, "ownedRelationship") {
            return if self.carries(class, c.base) {
                Derives::Exact
            } else {
                Derives::NotComputed
            };
        }
        if !self.declared(class, c.base) {
            return Derives::NotComputed;
        }
        match self.fidelity(class, c.base, depth + 1) {
            Derives::NotDeclared => Derives::NotComputed,
            f => f,
        }
    }

    pub fn fidelity(&self, class: &str, name: &str, depth: usize) -> (r: Derives)
        ensures
            r == self@.fidelity(class@, name@, depth as nat),
        decreases 9 - depth, 1nat,
    {
        if self.member_side(class, name).is_some() {
            return Derives::Exact;
        }
        if is_listed(&gated_names_list(), name) {
            return self.gated(class, name);
        }
        if is_exact(name) {
            return Derives::Exact;
        }
        if is_passthrough(name) {
            return Derives::Passthrough;
        }
        match self.composition(name) {
            Some(c) => self.composed_fidelity(class, c, depth),
            None => Derives::NotComputed,
        }
    }
}

proof fn lemma_pair_tables()
    ensures
        member_side_names().len() == member_side_kinds().len(),
        gated_names().len() == gated_kinds().len(),
{
    reveal(crate::derived_table::member_side_names_0);
    reveal(crate::derived_table::member_side_kinds_0);
    reveal(crate::derived_table::gated_names_0);
    reveal(crate::derived_table::gated_kinds_0);
}

/// Whether `metaclass` is, or specializes, `general`.
pub fn metaclass_conforms(mm: &Metamodel, metaclass: &str, general: &str) -> (r: bool)
    ensures
        r == mm@.conforms(metaclass@, general@),
{
    mm.conforms(metaclass, general)
}

/// The metamodel's own spelling of a metaclass name; `None` for a name that
/// it does not declare.
pub fn metaclass_name(mm: &Metamodel, name: &str) -> (r: Option<&'static str>)
    ensures
        r is Some ==> r->0@ == name@,
        r is Some <==> exists|i: int| 0 <= i < mm@.hierarchy.len() && (#[trigger] mm@.hierarchy[i]).0 == name@,
{
    let n: usize = mm.hierarchy.len();
    let mut i: usize = 0;
    while i < n
        invariant
            n == mm.hierarchy@.len(),
            i <= n,
            forall|a: int| 0 <= a < i ==> (#[trigger] mm@.hierarchy[a]).0 != name@,
        decreases n - i,
    {
        if str_eq(mm.hierarchy[i].metaclass, name) {
            assert(mm@.hierarchy[i as int].0 == name@);
            return Some(mm.hierarchy[i].metaclass);
        }
        i += 1;
    }
    None
}

/// Whether the abstract syntax declares `name` on `metaclass` as an owned
/// property.
pub fn is_owned_property(mm: &Metamodel, metaclass: &str, name: &str) -> (r: bool)
    ensures
        r == (mm@.carries(metaclass@, name@) && !mm@.declared(metaclass@, name@)),
{
    mm.carries(metaclass, name) && !mm.declared(metaclass, name)
}

/// What is answered for `name` on an element of `metaclass` on the owned side.
pub fn derives(mm: &Metamodel, metaclass: &str, name: &str) -> (r: Derives)
    ensures
        r == mm@.derives_under(metaclass@, name@, ClosurePolicy::Passthrough),
{
    derives_under(mm, metaclass, name, ClosurePolicy::Passthrough)
}

/// What is answered for `name` on an element of `metaclass` under a closure
/// policy: with the closures and the implied heritage in force every
/// owned-side name but the approximate ones is exact.
pub fn derives_under(
    mm: &Metamodel,
    metaclass: &str,
    name: &str,
    policy: ClosurePolicy,
) -> (r: Derives)
    ensures
        r == mm@.derives_under(metaclass@, name@, policy),
{
    if !mm.declared(metaclass, name) {
        return Derives::NotDeclared;
    }
    let f: Derives = mm.fidelity(metaclass, name, 0);
    let implied: bool = match policy.include_implied() {
        Some(x) => x,
        None => false,
    };
    if f == Derives::Passthrough && implied && !is_listed(&approximate_names_list(), name) {
        Derives::Exact
    } else {
        f
    }
}

pub open spec fn catalog_view(v: Seq<CatalogEntry>) -> Seq<CatalogEntryV> {
    Seq::new(v.len(), |i: int| v[i]@)
}

fn push_class_rows(mm: &Metamodel, i: usize, out: &mut Vec<CatalogEntry>)
    requires
        i < mm@.class_props.len(),
    ensures
        catalog_view(final(out)@) == catalog_view(old(out)@) + mm@.class_rows(i as int, 0),
{
    let class: &'static str = mm.class_props[i].metaclass;
    let n: usize = mm.class_props[i].props.len();
    let mut k: usize = 0;
    while k < n
        invariant
            i < mm@.class_props.len(),
            class == mm.class_props@[i as int].metaclass,
            n == mm.class_props@[i as int].props@.len(),
            k <= n,
            catalog_view(out@) + mm@.class_rows(i as int, k as int) == catalog_view(old(out)@)
                + mm@.class_rows(i as int, 0),
        decreases n - k,
    {
        let p: PropertyRow = mm.class_props[i].props[k];
        let ghost before = catalog_view(out@);
        let owned: bool = !mm.declared(class, p.name);
        let row = CatalogEntry { metaclass: class, property: p.name, shape: p.shape, owned };
        out.push(row);
        assert(catalog_view(out@) =~= before.push(row@));
        assert(before + mm@.class_rows(i as int, k as int) =~= catalog_view(out@)
            + mm@.class_rows(i as int, k + 1));
        k += 1;
    }
    assert(catalog_view(out@) + mm@.class_rows(i as int, n as int) =~= catalog_view(out@));
}

/// Every (concrete metaclass, property) pair, in the order of the tables.
pub fn property_catalog(mm: &Metamodel) -> (r: Vec<CatalogEntry>)
    ensures
        catalog_view(r@) == mm@.catalog_from(0),
{
    let mut out: Vec<CatalogEntry> = Vec::new();
    let n: usize = mm.class_props.len();
    let mut i: usize = 0;
    assert(catalog_view(out@) + mm@.catalog_from(0) =~= mm@.catalog_from(0));
    while i < n
        invariant
            n == mm.class_props@.len(),
            i <= n,
            catalog_view(out@) + mm@.catalog_from(i as int) == mm@.catalog_from(0),
        decreases n - i,
    {
        let ghost before = catalog_view(out@);
        assert(mm@.class_props[i as int].0 == mm.class_props@[i as int].metaclass@);
        if !is_listed(&mm.abstract_metaclasses, mm.class_props[i].metaclass) {
            push_class_rows(mm, i, &mut out);
            assert(before + mm@.catalog_from(i as int) =~= catalog_view(out@) + mm@.catalog_from(i + 1));
        }
        i += 1;
    }
    assert(catalog_view(out@) + mm@.catalog_from(n as int) =~= catalog_view(out@));
    out
}

fn push_composed(mm: &Metamodel, out: &mut Vec<&'static str>)
    ensures
        names_view(final(out)@) == names_view(old(out)@) + mm@.composed_names(0),
{
    let n: usize = mm.compositions.len();
    let mut k: usize = 0;
    while k < n
        invariant
            n == mm.compositions@.len(),
            k <= n,
            names_view(out@) + mm@.composed_names(k as int) == names_view(old(out)@)
                + mm@.composed_names(0),
        decreases n - k,
    {
        let ghost before = names_view(out@);
        let name: &'static str = mm.compositions[k].name;
        assert(mm@.compositions[k as int].name == name@);
        if !is_hand_written(name) {
            out.push(name);
            assert(names_view(out@) =~= before.push(name@));
            assert(before + mm@.composed_names(k as int) =~= names_view(out@) + mm@.composed_names(k + 1));
        }
        k += 1;
    }
    assert(names_view(out@) + mm@.composed_names(n as int) =~= names_view(out@));
}

fn push_lone_members(mm: &Metamodel, out: &mut Vec<&'static str>)
    ensures
        names_view(final(out)@) == names_view(old(out)@) + mm@.lone_member_names(0),
{
    let names: Vec<&'static str> = member_side_names_list();
    let n: usize = names.len();
    let mut k: usize = 0;
    while k < n
        invariant
            n == names@.len(),
            names_view(names@) == member_side_names(),
            k <= n,
            names_view(out@) + mm@.lone_member_names(k as int) == names_view(old(out)@)
                + mm@.lone_member_names(0),
        decreases n - k,
    {
        let ghost before = names_view(out@);
        let name: &'static str = names[k];
        assert(member_side_names()[k as int] == name@ && member_side_names().len() == n);
        let taken: bool = is_hand_written(name) || mm.composition(name).is_some();
        if !taken {
            out.push(name);
            assert(names_view(out@) =~= before.push(name@));
            assert(before + mm@.lone_member_names(k as int) =~= names_view(out@) + mm@.lone_member_names(
                k + 1,
            ));
        }
        k += 1;
    }
    assert(member_side_names().len() == names_view(names@).len());
    assert(names_view(out@) + mm@.lone_member_names(n as int) =~= names_view(out@));
}

/// Every derived name that is computed on some metaclass: the hand-written
/// families, the compositions, and the member-side names nothing else covers.
pub fn computed_names(mm: &Metamodel) -> (r: Vec<&'static str>)
    ensures
        names_view(r@) == mm@.computed_names(),
{
    let mut out: Vec<&'static str> = exact_names_list();
    let more: Vec<&'static str> = passthrough_names_list();
    let n: usize = more.len();
    let mut i: usize = 0;
    let ghost start = out@;
    assert(out@ =~= start + more@.take(0));
    while i < n
        invariant
            n == more@.len(),
            i <= n,
            out@ == start + more@.take(i as int),
        decreases n - i,
    {
        out.push(more[i]);
        assert(more@.take(i + 1) =~= more@.take(i as int).push(more@[i as int]));
        assert(out@ =~= start + more@.take(i + 1));
        i += 1;
    }
    assert(more@.take(n as int) =~= more@);
    assert(names_view(out@) =~= names_view(start) + names_view(more@));
    push_composed(mm, &mut out);
    push_lone_members(mm, &mut out);
    out
}

/// The names from `k` on that are computed on a metaclass.
pub open spec fn computable_from(
    mm: MetamodelV,
    class: Seq<char>,
    names: Seq<Seq<char>>,
    k: int,
) -> Seq<Seq<char>>
    decreases names.len() - k,
    when 0 <= k
{
    if k >= names.len() {
        Seq::empty()
    } else if mm.derives_under(class, names[k], ClosurePolicy::Passthrough) == Derives::Passthrough
        || mm.derives_under(class, names[k], ClosurePolicy::Passthrough) == Derives::Exact {
        seq![names[k]] + computable_from(mm, class, names, k + 1)
    } else {
        computable_from(mm, class, names, k + 1)
    }
}

/// The derived names that an element of a metaclass answers with a value.
pub fn computable_names(mm: &Metamodel, metaclass: &str) -> (r: Vec<&'static str>)
    ensures
        names_view(r@) == computable_from(mm@, metaclass@, mm@.computed_names(), 0),
{
    let all: Vec<&'static str> = computed_names(mm);
    let ghost av = names_view(all@);
    let mut out: Vec<&'static str> = Vec::new();
    let n: usize = all.len();
    let mut k: usize = 0;
    let ghost whole = computable_from(mm@, metaclass@, av, 0);
    assert(names_view(out@) + whole =~= whole);
    while k < n
        invariant
            n == all@.len(),
            av == names_view(all@),
            k <= n,
            names_view(out@) + computable_from(mm@, metaclass@, av, k as int) == whole,
        decreases n - k,
    {
        let name: &'static str = all[k];
        assert(av[k as int] == name@);
        let computed: bool = match derives(mm, metaclass, name) {
            Derives::Passthrough => true,
            Derives::Exact => true,
            _ => false,
        };
        if computed {
            let ghost before = names_view(out@);
            let ghost rest = computable_from(mm@, metaclass@, av, k + 1);
            out.push(name);
            assert(names_view(out@) =~= before.push(name@));
            assert(before + (seq![name@] + rest) =~= names_view(out@) + rest);
        }
        k += 1;
    }
    assert(names_view(out@) + Seq::<Seq<char>>::empty() =~= names_view(out@));
    out
}

/// With the closures and the implied heritage in force, nothing that was
/// computed on the owned side stays approximate but the listed names.
pub proof fn law_full_closure_is_exact(mm: MetamodelV, class: Seq<char>, name: Seq<char>)
    requires
        mm.derives_under(class, name, ClosurePolicy::Passthrough) == Derives::Passthrough,
        !listed(approximate_names(), name),
    ensures
        mm.derives_under(class, name, ClosurePolicy::Closure { include_implied: true }) == Derives::Exact,
        mm.derives_under(class, name, ClosurePolicy::Closure { include_implied: false })
            == Derives::Passthrough,
{
}

/// A policy never changes whether a name is declared or computed, and what
/// is exact on the owned side stays exact.
pub proof fn law_policy_only_sharpens(
    mm: MetamodelV,
    class: Seq<char>,
    name: Seq<char>,
    policy: ClosurePolicy,
)
    ensures
        ({
            let low = mm.derives_under(class, name, ClosurePolicy::Passthrough);
            let high = mm.derives_under(class, name, policy);
            &&& low != Derives::Passthrough ==> high == low
            &&& low == Derives::Passthrough ==> high == Derives::Passthrough || high == Derives::Exact
        }),
{
}

proof fn lemma_depth(mm: MetamodelV, class: Seq<char>, name: Seq<char>, depth: nat)
    requires
        mm.fidelity(class, name, depth + 1) != Derives::NotComputed,
    ensures
        mm.fidelity(class, name, depth) == mm.fidelity(class, name, depth + 1),
    decreases 9 - depth,
{
    if mm.member_side(class, name) is None && !listed(gated_names(), name) && !listed(exact_names(), name)
        && !listed(passthrough_names(), name) {
        if let Some(c) = mm.composition(name) {
            if depth + 1 <= 8 && c.base != "ownedRelationship"@ && mm.declared(class, c.base) {
                lemma_depth(mm, class, c.base, depth + 1);
            }
        }
    }
}

/// A composition without a computation of its own is computed on a metaclass
/// only where its base is: the owned relationships are carried there, or the
/// base is declared there and answered the same way.
pub proof fn law_compositions_follow_their_base(mm: MetamodelV, class: Seq<char>, name: Seq<char>)
    requires
        mm.member_side(class, name) is None,
        !listed(gated_names(), name),
        !hand_written(name),
        mm.composition(name) is Some,
        ({
            let says = mm.derives_under(class, name, ClosurePolicy::Passthrough);
            says == Derives::Exact || says == Derives::Passthrough
        }),
    ensures
        ({
            let base = mm.composition(name)->0.base;
            if base == "ownedRelationship"@ {
                mm.carries(class, base)
            } else {
                mm.derives_under(class, base, ClosurePolicy::Passthrough) == mm.derives_under(
                    class,
                    name,
                    ClosurePolicy::Passthrough,
                )
            }
        }),
{
    let base = mm.composition(name)->0.base;
    if base != "ownedRelationship"@ {
        lemma_depth(mm, class, base, 0);
    }
}

impl MetamodelV {
    pub proof fn lemma_member_side_listed(self, class: Seq<char>, name: Seq<char>, k: int)
        requires
            0 <= k,
            self.member_side_from(class, name, k) is Some,
        ensures
            listed(member_side_names(), name),
        decreases member_side_names().len() - k,
    {
        if k < member_side_names().len() && !(member_side_names()[k] == name && self.conforms(
            class,
            member_side_kinds()[k],
        )) {
            self.lemma_member_side_listed(class, name, k + 1);
        }
    }

    proof fn lemma_composed(self, name: Seq<char>, k: int)
        requires
            0 <= k,
            self.composition_from(name, k) is Some,
            !hand_written(name),
        ensures
            self.composed_names(k).contains(name),
        decreases self.compositions.len() - k,
    {
        if k < self.compositions.len() {
            let rest = self.composed_names(k + 1);
            let x = self.compositions[k].name;
            if x == name {
                assert(self.composed_names(k)[0] == name);
            } else {
                self.lemma_composed(name, k + 1);
                let i = choose|i: int| 0 <= i < rest.len() && rest[i] == name;
                if !hand_written(x) {
                    assert((seq![x] + rest)[i + 1] == name);
                }
            }
        }
    }

    proof fn lemma_lone(self, name: Seq<char>, k: int, at: int)
        requires
            0 <= k <= at < member_side_names().len(),
            member_side_names()[at] == name,
            !hand_written(name),
            self.composition(name) is None,
        ensures
            self.lone_member_names(k).contains(name),
        decreases at - k,
    {
        let rest = self.lone_member_names(k + 1);
        let x = member_side_names()[k];
        if k == at {
            assert(self.lone_member_names(k)[0] == name);
        } else {
            self.lemma_lone(name, k + 1, at);
            let i = choose|i: int| 0 <= i < rest.len() && rest[i] == name;
            if !(hand_written(x) || self.composition(x) is Some) {
                assert((seq![x] + rest)[i + 1] == name);
            }
        }
    }

    /// A name that something computes is among the computed names.
    pub proof fn lemma_computed(self, name: Seq<char>)
        requires
            hand_written(name) || self.composition(name) is Some || listed(member_side_names(), name),
        ensures
            self.computed_names().contains(name),
    {
        let a = exact_names();
        let b = passthrough_names();
        let c = self.composed_names(0);
        let d = self.lone_member_names(0);
        let all = self.computed_names();
        assert(all == a + b + c + d);
        if listed(a, name) {
            let i = choose|i: int| 0 <= i < a.len() && #[trigger] a[i] == name;
            assert(all[i] == name);
        } else if listed(b, name) {
            let i = choose|i: int| 0 <= i < b.len() && #[trigger] b[i] == name;
            assert(all[a.len() + i] == name);
        } else if self.composition(name) is Some {
            self.lemma_composed(name, 0);
            let i = choose|i: int| 0 <= i < c.len() && c[i] == name;
            assert(all[a.len() + b.len() + i] == name);
        } else {
            let at = choose|i: int|
                0 <= i < member_side_names().len() && #[trigger] member_side_names()[i] == name;
            self.lemma_lone(name, 0, at);
            let i = choose|i: int| 0 <= i < d.len() && d[i] == name;
            assert(all[a.len() + b.len() + c.len() + i] == name);
        }
    }

    /// The names of what relationships and connectors relate stand for no
    /// owned member.
    pub proof fn lemma_connection_names_are_no_members(self, class: Seq<char>)
        ensures
            self.member_side(class, "relatedElement"@) is None,
            self.member_side(class, "relatedFeature"@) is None,
            self.member_side(class, "sourceFeature"@) is None,
            self.member_side(class, "targetFeature"@) is None,
    {
        crate::derived_table::lemma_connection_names_are_unlisted();
        if self.member_side(class, "relatedElement"@) is Some {
            self.lemma_member_side_listed(class, "relatedElement"@, 0);
        }
        if self.member_side(class, "relatedFeature"@) is Some {
            self.lemma_member_side_listed(class, "relatedFeature"@, 0);
        }
        if self.member_side(class, "sourceFeature"@) is Some {
            self.lemma_member_side_listed(class, "sourceFeature"@, 0);
        }
        if self.member_side(class, "targetFeature"@) is Some {
            self.lemma_member_side_listed(class, "targetFeature"@, 0);
        }
    }

    pub proof fn lemma_closure_names_are_no_members(self, class: Seq<char>)
        ensures
            self.member_side(class, "inheritedMembership"@) is None,
            self.member_side(class, "inheritedFeature"@) is None,
            self.member_side(class, "importedMembership"@) is None,
    {
        crate::derived_table::lemma_closure_names_are_unlisted();
        if self.member_side(class, "inheritedMembership"@) is Some {
            self.lemma_member_side_listed(class, "inheritedMembership"@, 0);
        }
        if self.member_side(class, "inheritedFeature"@) is Some {
            self.lemma_member_side_listed(class, "inheritedFeature"@, 0);
        }
        if self.member_side(class, "importedMembership"@) is Some {
            self.lemma_member_side_listed(class, "importedMembership"@, 0);
        }
    }

    proof fn lemma_class_rows(self, i: int, k: int, x: CatalogEntryV)
        requires
            0 <= i < self.class_props.len(),
            0 <= k,
        ensures
            self.class_rows(i, k).contains(x) <==> exists|j: int|
                k <= j < self.class_props[i].1.len() && x == self.catalog_entry(i, j),
        decreases self.class_props[i].1.len() - k,
    {
        let n = self.class_props[i].1.len() as int;
        if k < n {
            self.lemma_class_rows(i, k + 1, x);
            let rest = self.class_rows(i, k + 1);
            let all = self.class_rows(i, k);
            assert(all =~= seq![self.catalog_entry(i, k)] + rest);
            if all.contains(x) {
                let q = choose|q: int| 0 <= q < all.len() && all[q] == x;
                if q == 0 {
                    assert(x == self.catalog_entry(i, k));
                } else {
                    assert(rest[q - 1] == x);
                    let j = choose|j: int| k + 1 <= j < n && x == self.catalog_entry(i, j);
                    assert(x == self.catalog_entry(i, j));
                }
            }
            if exists|j: int| k <= j < n && x == self.catalog_entry(i, j) {
                let j = choose|j: int| k <= j < n && x == self.catalog_entry(i, j);
                if j == k {
                    assert(all[0] == x);
                } else {
                    assert(rest.contains(x));
                    let q = choose|q: int| 0 <= q < rest.len() && rest[q] == x;
                    assert(all[q + 1] == x);
                }
            }
        }
    }

    proof fn lemma_catalog(self, i: int, x: CatalogEntryV)
        requires
            0 <= i,
        ensures
            self.catalog_from(i).contains(x) <==> exists|r: int, j: int|
                i <= r < self.class_props.len() && 0 <= j < self.class_props[r].1.len() && !listed(
                    self.abstract_metaclasses,
                    self.class_props[r].0,
                ) && x == #[trigger] self.catalog_entry(r, j),
        decreases self.class_props.len() - i,
    {
        let n = self.class_props.len() as int;
        if i < n {
            self.lemma_catalog(i + 1, x);
            self.lemma_class_rows(i, 0, x);
            let rest = self.catalog_from(i + 1);
            let here = self.class_rows(i, 0);
            let all = self.catalog_from(i);
            let hidden = listed(self.abstract_metaclasses, self.class_props[i].0);
            if all.contains(x) {
                let q = choose|q: int| 0 <= q < all.len() && all[q] == x;
                if !hidden && q < here.len() {
                    assert(here[q] == x);
                    let j = choose|j: int| 0 <= j < self.class_props[i].1.len() && x == self.catalog_entry(i, j);
                    assert(x == self.catalog_entry(i, j));
                } else {
                    let p = if hidden {
                        q
                    } else {
                        q - here.len()
                    };
                    assert(rest[p] == x);
                    assert(rest.contains(x));
                    let (r, j) = choose|r: int, j: int|
                        i + 1 <= r < n && 0 <= j < self.class_props[r].1.len() && !listed(
                            self.abstract_metaclasses,
                            self.class_props[r].0,
                        ) && x == #[trigger] self.catalog_entry(r, j);
                    assert(x == self.catalog_entry(r, j));
                }
            }
            if exists|r: int, j: int|
                i <= r < n && 0 <= j < self.class_props[r].1.len() && !listed(
                    self.abstract_metaclasses,
                    self.class_props[r].0,
                ) && x == #[trigger] self.catalog_entry(r, j) {
                let (r, j) = choose|r: int, j: int|
                    i <= r < n && 0 <= j < self.class_props[r].1.len() && !listed(
                        self.abstract_metaclasses,
                        self.class_props[r].0,
                    ) && x == #[trigger] self.catalog_entry(r, j);
                if r == i {
                    assert(here.contains(x));
                    let q = choose|q: int| 0 <= q < here.len() && here[q] == x;
                    assert(all[q] == x);
                } else {
                    assert(x == self.catalog_entry(r, j));
                    assert(rest.contains(x));
                    let q = choose|q: int| 0 <= q < rest.len() && rest[q] == x;
                    if hidden {
                        assert(all[q] == x);
                    } else {
                        assert(all[here.len() + q] == x);
                    }
                }
            }
        }
    }

    /// The catalog entry of a metaclass row's property.
    pub open spec fn catalog_entry(self, i: int, k: int) -> CatalogEntryV {
        CatalogEntryV {
            metaclass: self.class_props[i].0,
            property: self.class_props[i].1[k].0,
            shape: self.class_props[i].1[k].1,
            owned: !self.declared(self.class_props[i].0, self.class_props[i].1[k].0),
        }
    }
}

/// The catalog lists a property on a concrete metaclass exactly where the
/// metaclass carries it, and then as owned exactly where it is not derived
/// there: a pair is in the catalog where it is owned or declared.
pub proof fn law_the_catalog_is_complete(
    mm: MetamodelV,
    class: Seq<char>,
    name: Seq<char>,
    owned: bool,
)
    requires
        !listed(mm.abstract_metaclasses, class),
    ensures
        (exists|x: CatalogEntryV| #[trigger]
            mm.catalog_from(0).contains(x) && x.metaclass == class && x.property == name && x.owned
                == owned) <==> mm.carries(class, name) && owned == !mm.declared(class, name),
{
    if exists|x: CatalogEntryV| #[trigger]
        mm.catalog_from(0).contains(x) && x.metaclass == class && x.property == name && x.owned == owned {
        let x = choose|x: CatalogEntryV| #[trigger]
            mm.catalog_from(0).contains(x) && x.metaclass == class && x.property == name && x.owned
                == owned;
        mm.lemma_catalog(0, x);
        let (r, j) = choose|r: int, j: int|
            0 <= r < mm.class_props.len() && 0 <= j < mm.class_props[r].1.len() && !listed(
                mm.abstract_metaclasses,
                mm.class_props[r].0,
            ) && x == #[trigger] mm.catalog_entry(r, j);
        assert(mm.class_props[r].1[j].0 == name);
    }
    if mm.carries(class, name) && owned == !mm.declared(class, name) {
        let (r, j) = choose|i: int, k: int|
            0 <= i < mm.class_props.len() && 0 <= k < (#[trigger] mm.class_props[i]).1.len()
                && mm.class_props[i].0 == class && (#[trigger] mm.class_props[i].1[k]).0 == name;
        let x = mm.catalog_entry(r, j);
        mm.lemma_catalog(0, x);
        assert(mm.catalog_from(0).contains(x));
    }
}

/// Every metaclass conforms to itself.
pub proof fn law_conformance_is_reflexive(mm: MetamodelV, class: Seq<char>)
    ensures
        mm.conforms(class, class),
{
}

} // verus!
