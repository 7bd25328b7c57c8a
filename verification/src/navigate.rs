//! Navigation: connector ends, transitions, imports and notes.
use crate::ast::Expr;
use crate::derive_base::{Derivation, DV};
use crate::derive_lists::{get_head, get_last, head, last, make_unit, unit};
use crate::graph_get::{link_prop, opt_text};
use crate::naming_ids::{is_membership, or_name};
use crate::props::{Link, LinkV};
use crate::state::{all_below, below, Builder};
use crate::text::{chars_of, is_white_space, white_space};
use std::rc::Rc;
use vstd::prelude::*;

verus! {

impl DV {
    /// What the first relationship of a metaclass names under a key.
    #[verifier::opaque]
    pub open spec fn rel_target(self, e: usize, ty: Seq<char>, key: Seq<char>) -> Option<usize> {
        match head(self.of_type(self.owned(e), ty)) {
            Some(r) => self.target(r, key),
            None => None,
        }
    }
}

impl Derivation {
    /// What the first relationship of a metaclass names under a key.
    pub fn rel_target(&self, e: usize, ty: &str, key: &str) -> (r: Option<usize>)
        requires
            self.ok(),
            e < self@.n(),
        ensures
            r == self@.rel_target(e, ty@, key@),
            below(r, self@.n()),
    {
        proof {
            reveal(DV::rel_target);
        }
        match get_head(&self.of_type(&self.owned(e), ty)) {
            Some(r) => self.target(r, key),
            None => None,
        }
    }
}

impl DV {
    /// Whether a relationship imports a namespace.
    #[verifier::opaque]
    pub open spec fn imports_namespace(self, x: usize) -> bool {
        self.is_type(x, "NamespaceImport"@) || self.is_type(x, "NamespaceExpose"@)
    }
}

impl Derivation {
    /// Whether a relationship imports a namespace.
    pub fn imports_namespace(&self, x: usize) -> (r: bool)
        requires
            self.ok(),
            x < self@.n(),
        ensures
            r == self@.imports_namespace(x),
    {
        proof {
            reveal(DV::imports_namespace);
        }
        self.is_type(x, "NamespaceImport") || self.is_type(x, "NamespaceExpose")
    }
}

impl DV {
    /// Whether a relationship imports a membership.
    #[verifier::opaque]
    pub open spec fn imports_membership(self, x: usize) -> bool {
        self.is_type(x, "MembershipImport"@) || self.is_type(x, "MembershipExpose"@)
    }
}

impl Derivation {
    /// Whether a relationship imports a membership.
    pub fn imports_membership(&self, x: usize) -> (r: bool)
        requires
            self.ok(),
            x < self@.n(),
        ensures
            r == self@.imports_membership(x),
    {
        proof {
            reveal(DV::imports_membership);
        }
        self.is_type(x, "MembershipImport") || self.is_type(x, "MembershipExpose")
    }
}

impl DV {
    /// What an import names, as it is serialized.
    #[verifier::opaque]
    pub open spec fn import_named(self, x: usize) -> Option<usize> {
        if self.imports_namespace(x) {
            self.target(x, "importedNamespace"@)
        } else if self.imports_membership(x) {
            self.target(x, "importedMembership"@)
        } else {
            None
        }
    }
}

impl Derivation {
    /// What an import names, as it is serialized.
    pub fn import_named(&self, x: usize) -> (r: Option<usize>)
        requires
            self.ok(),
            x < self@.n(),
        ensures
            r == self@.import_named(x),
            below(r, self@.n()),
    {
        proof {
            reveal(DV::import_named);
        }
        if self.imports_namespace(x) {
            self.target(x, "importedNamespace")
        } else if self.imports_membership(x) {
            self.target(x, "importedMembership")
        } else {
            None
        }
    }
}

impl DV {
    /// The member that a membership stands for.
    #[verifier::opaque]
    pub open spec fn membership_member(self, m: usize) -> Option<usize> {
        match self.target(m, "memberElement"@) {
            Some(t) => Some(t),
            None => self.first_child(m),
        }
    }
}

impl Derivation {
    /// The member that a membership stands for.
    pub fn membership_member(&self, m: usize) -> (r: Option<usize>)
        requires
            self.ok(),
            m < self@.n(),
        ensures
            r == self@.membership_member(m),
            below(r, self@.n()),
    {
        proof {
            reveal(DV::membership_member);
        }
        match self.target(m, "memberElement") {
            Some(t) => Some(t),
            None => self.first_child(m),
        }
    }
}

impl DV {
    /// What an import imports: a membership stands for its member.
    #[verifier::opaque]
    pub open spec fn import_target(self, x: usize) -> Option<usize> {
        match self.import_named(x) {
            Some(t) => if self.ends_membership(t) {
                self.membership_member(t)
            } else {
                Some(t)
            },
            None => None,
        }
    }
}

impl Derivation {
    /// What an import imports: a membership stands for its member.
    pub fn import_target(&self, x: usize) -> (r: Option<usize>)
        requires
            self.ok(),
            x < self@.n(),
        ensures
            r == self@.import_target(x),
            below(r, self@.n()),
    {
        proof {
            reveal(DV::import_target);
        }
        match self.import_named(x) {
            Some(t) => if self.ends_membership(t) {
                self.membership_member(t)
            } else {
                Some(t)
            },
            None => None,
        }
    }
}

impl DV {
    /// The state that a transition leaves.
    #[verifier::opaque]
    pub open spec fn transition_first(self, e: usize) -> Option<usize> {
        head(self.targets(self.of_type(self.owned(e), "Membership"@), "memberElement"@))
    }
}

impl Derivation {
    /// The state that a transition leaves.
    pub fn transition_first(&self, e: usize) -> (r: Option<usize>)
        requires
            self.ok(),
            e < self@.n(),
        ensures
            r == self@.transition_first(e),
            below(r, self@.n()),
    {
        proof {
            reveal(DV::transition_first);
        }
        get_head(&self.targets(&self.of_type(&self.owned(e), "Membership"), "memberElement"))
    }
}

impl DV {
    /// The trigger or the effect of a transition: the last of its kind.
    #[verifier::opaque]
    pub open spec fn transition_part(self, e: usize, kind: Seq<char>) -> Option<usize> {
        match last(self.with_text(self.of_type(self.owned(e), "TransitionFeatureMembership"@), "kind"@, kind)) {
            Some(m) => self.first_child(m),
            None => None,
        }
    }
}

impl Derivation {
    /// The trigger or the effect of a transition: the last of its kind.
    pub fn transition_part(&self, e: usize, kind: &str) -> (r: Option<usize>)
        requires
            self.ok(),
            e < self@.n(),
        ensures
            r == self@.transition_part(e, kind@),
            below(r, self@.n()),
    {
        proof {
            reveal(DV::transition_part);
        }
        match get_last(&self.with_text(&self.of_type(&self.owned(e), "TransitionFeatureMembership"), "kind", kind)) {
            Some(m) => self.first_child(m),
            None => None,
        }
    }
}

impl DV {
    /// The succession that a transition owns, where an element is one.
    #[verifier::opaque]
    pub open spec fn if_succession(self, x: usize) -> Option<usize> {
        if self.begins_succession(x) {
            Some(x)
        } else {
            None
        }
    }
}

impl Derivation {
    /// The succession that a transition owns, where an element is one.
    pub fn if_succession(&self, x: usize) -> (r: Option<usize>)
        requires
            self.ok(),
            x < self@.n(),
        ensures
            r == self@.if_succession(x),
            below(r, self@.n()),
    {
        proof {
            reveal(DV::if_succession);
        }
        if self.begins_succession(x) {
            Some(x)
        } else {
            None
        }
    }
}

impl DV {
    /// The elements an annotating element is about.
    #[verifier::opaque]
    pub open spec fn annotated_elements(self, e: usize) -> Seq<usize> {
        self.targets(self.of_type(self.owned(e), "Annotation"@), "annotatedElement"@)
    }
}

impl Derivation {
    /// The elements an annotating element is about.
    pub fn annotated_elements(&self, e: usize) -> (r: Vec<usize>)
        requires
            self.ok(),
            e < self@.n(),
        ensures
            r@ == self@.annotated_elements(e),
            all_below(r@, self@.n()),
    {
        proof {
            reveal(DV::annotated_elements);
        }
        self.targets(&self.of_type(&self.owned(e), "Annotation"), "annotatedElement")
    }
}

impl DV {
    /// Whether an element is a literal of an enumeration or a variant.
    #[verifier::opaque]
    pub open spec fn is_enum_value(self, e: usize) -> bool {
        if self.is_type(e, "EnumerationUsage"@) {
            true
        } else {
            match self.owning(e) {
                Some(r) => self.is_type(r, "VariantMembership"@),
                None => false,
            }
        }
    }
}

impl Derivation {
    /// Whether an element is a literal of an enumeration or a variant.
    pub fn is_enum_value(&self, e: usize) -> (r: bool)
        requires
            self.ok(),
            e < self@.n(),
        ensures
            r == self@.is_enum_value(e),
    {
        proof {
            reveal(DV::is_enum_value);
        }
        if self.is_type(e, "EnumerationUsage") {
            true
        } else {
            match self.owning(e) {
                Some(r) => self.is_type(r, "VariantMembership"),
                None => false,
            }
        }
    }
}

impl DV {
    /// Whether an element is a note: a comment or a documentation.
    #[verifier::opaque]
    pub open spec fn is_note(self, e: usize) -> bool {
        self.is_type(e, "Comment"@) || self.is_type(e, "Documentation"@)
    }
}

impl Derivation {
    /// Whether an element is a note: a comment or a documentation.
    pub fn is_note(&self, e: usize) -> (r: bool)
        requires
            self.ok(),
            e < self@.n(),
        ensures
            r == self@.is_note(e),
    {
        proof {
            reveal(DV::is_note);
        }
        self.is_type(e, "Comment") || self.is_type(e, "Documentation")
    }
}

impl DV {
    /// The successions among elements.
    pub open spec fn successions_from(self, s: Seq<usize>, k: int) -> Seq<usize>
        decreases s.len() - k,
        when 0 <= k
    {
        if k >= s.len() {
            Seq::empty()
        } else {
            match self.if_succession(s[k]) {
                Some(y) => seq![y] + self.successions_from(s, k + 1),
                None => self.successions_from(s, k + 1),
            }
        }
    }

    #[verifier::opaque]
    pub open spec fn successions(self, s: Seq<usize>) -> Seq<usize> {
        self.successions_from(s, 0)
    }
}

impl Derivation {
    /// The successions among elements.
    pub fn successions(&self, list: &Vec<usize>) -> (r: Vec<usize>)
        requires
            self.ok(),
            all_below(list@, self@.n()),
        ensures
            r@ == self@.successions(list@),
            all_below(r@, self@.n()),
    {
        proof {
            reveal(DV::successions);
        }
        let mut out: Vec<usize> = Vec::new();
        let n: usize = list.len();
        let mut k: usize = 0;
        let ghost whole = self@.successions_from(list@, 0);
        assert(out@ + whole =~= whole);
        while k < n
            invariant
                self.ok(),
                all_below(list@, self@.n()),
                n == list@.len(),
                k <= n,
                all_below(out@, self@.n()),
                out@ + self@.successions_from(list@, k as int) == whole,
            decreases n - k,
        {
            let x: usize = list[k];
            let ghost before = out@;
            let ghost rest = self@.successions_from(list@, k + 1);
            if let Some(y) = self.if_succession(x) {
                let ghost yv = y;
                out.push(y);
                assert(out@ =~= before.push(yv));
                assert(before + (seq![yv] + rest) =~= out@ + rest);
            }
            k += 1;
        }
        assert(out@ + Seq::<usize>::empty() =~= out@);
        out
    }
}

pub open spec fn starts_with(s: Seq<char>, prefix: Seq<char>) -> bool {
    s.len() >= prefix.len() && s.take(prefix.len() as int) == prefix
}

fn has_prefix(s: &str, prefix: &str) -> (r: bool)
    ensures
        r == starts_with(s@, prefix@),
{
    let a: Vec<char> = chars_of(s);
    let b: Vec<char> = chars_of(prefix);
    let n: usize = b.len();
    if a.len() < n {
        return false;
    }
    let mut i: usize = 0;
    while i < n
        invariant
            n == b@.len(),
            n <= a@.len(),
            a@ == s@,
            b@ == prefix@,
            i <= n,
            forall|k: int| 0 <= k < i ==> a@[k] == b@[k],
        decreases n - i,
    {
        if a[i] != b[i] {
            assert(s@.take(prefix@.len() as int)[i as int] != prefix@[i as int]);
            return false;
        }
        i += 1;
    }
    assert(s@.take(prefix@.len() as int) =~= prefix@);
    true
}

/// Whether a text is blank.
pub open spec fn blank(s: Seq<char>) -> bool {
    forall|i: int| 0 <= i < s.len() ==> white_space(#[trigger] s[i])
}

fn is_blank(s: &str) -> (r: bool)
    ensures
        r == blank(s@),
{
    let cs: Vec<char> = chars_of(s);
    let n: usize = cs.len();
    let mut i: usize = 0;
    while i < n
        invariant
            n == cs@.len(),
            cs@ == s@,
            i <= n,
            forall|k: int| 0 <= k < i ==> white_space(#[trigger] cs@[k]),
        decreases n - i,
    {
        if !is_white_space(cs[i]) {
            return false;
        }
        i += 1;
    }
    true
}

/// One end of a connector: the chain of features it names, its spelling
/// where that did not resolve, and the end feature.
pub struct ConnectorEndTarget {
    pub chain: Vec<usize>,
    pub spelling: Option<String>,
    pub feature: usize,
}

pub struct EndV {
    pub chain: Seq<usize>,
    pub spelling: Option<Seq<char>>,
    pub feature: usize,
}

impl ConnectorEndTarget {
    pub open spec fn view(&self) -> EndV {
        EndV { chain: self.chain@, spelling: opt_text(self.spelling), feature: self.feature }
    }
}

pub open spec fn ends_view(s: Seq<ConnectorEndTarget>) -> Seq<EndV> {
    s.map_values(|x: ConnectorEndTarget| x@)
}

/// The parts of a transition.
pub struct TransitionParts {
    pub source: Option<usize>,
    pub target: Option<usize>,
    pub trigger: Option<usize>,
    pub effect: Option<usize>,
    pub guard: Option<Rc<Expr>>,
}

/// An import: what it imports, whether it is of a namespace, whether it is
/// recursive, and its visibility.
pub struct ImportDetail {
    pub target: usize,
    pub is_namespace: bool,
    pub recursive: bool,
    pub visibility: String,
}

pub struct ImportDetailV {
    pub target: usize,
    pub is_namespace: bool,
    pub recursive: bool,
    pub visibility: Seq<char>,
}

impl ImportDetail {
    pub open spec fn view(&self) -> ImportDetailV {
        ImportDetailV {
            target: self.target,
            is_namespace: self.is_namespace,
            recursive: self.recursive,
            visibility: self.visibility@,
        }
    }
}

pub open spec fn details_view(s: Seq<ImportDetail>) -> Seq<ImportDetailV> {
    s.map_values(|x: ImportDetail| x@)
}

/// A note: the annotating element, what it is about, its name and its body.
pub struct Note {
    pub note: usize,
    pub about: usize,
    pub name: Option<String>,
    pub body: String,
}

pub struct NoteV {
    pub note: usize,
    pub about: usize,
    pub name: Option<Seq<char>>,
    pub body: Seq<char>,
}

impl Note {
    pub open spec fn view(&self) -> NoteV {
        NoteV { note: self.note, about: self.about, name: opt_text(self.name), body: self.body@ }
    }
}

pub open spec fn notes_view(s: Seq<Note>) -> Seq<NoteV> {
    s.map_values(|x: Note| x@)
}

impl DV {
    pub open spec fn ends_membership(self, e: usize) -> bool {
        is_membership(self.g.elements[e as int].ty)
    }

    pub open spec fn begins_succession(self, e: usize) -> bool {
        starts_with(self.g.elements[e as int].ty, "Succession"@)
    }

    /// The links of chainings from `k` on, up to the first that did not
    /// resolve.
    pub open spec fn chain_links(self, s: Seq<usize>, k: int) -> Seq<usize>
        decreases s.len() - k,
        when 0 <= k
    {
        if k >= s.len() {
            Seq::empty()
        } else {
            match self.target(s[k], "chainingFeature"@) {
                Some(t) => seq![t] + self.chain_links(s, k + 1),
                None => Seq::empty(),
            }
        }
    }

    /// The written chain of a feature; a plain feature is its own.
    #[verifier::opaque]
    pub open spec fn expand_chain(self, t: usize) -> Seq<usize> {
        let c = self.of_type(self.owned(t), "FeatureChaining"@);
        if c.len() == 0 {
            seq![t]
        } else {
            self.chain_links(c, 0)
        }
    }

    /// The spelling under a key of the first relationship of a metaclass,
    /// where it did not resolve.
    #[verifier::opaque]
    pub open spec fn rel_spelling(
        self,
        e: usize,
        ty: Seq<char>,
        key: Seq<char>,
    ) -> Option<Seq<char>> {
        match head(self.of_type(self.owned(e), ty)) {
            Some(r) => match link_prop(self.g.elements[r as int].props, key) {
                Some(LinkV::Name(s)) => Some(s),
                _ => None,
            },
            None => None,
        }
    }

    /// What an end names through its reference subsetting.
    #[verifier::opaque]
    pub open spec fn plain_end(self, f: usize) -> EndV {
        match self.rel_target(f, "ReferenceSubsetting"@, "referencedFeature"@) {
            Some(t) => EndV { chain: self.expand_chain(t), spelling: None, feature: f },
            None => EndV {
                chain: Seq::empty(),
                spelling: self.rel_spelling(f, "ReferenceSubsetting"@, "referencedFeature"@),
                feature: f,
            },
        }
    }

    /// The feature through which a flow end spells its last step.
    #[verifier::opaque]
    pub open spec fn flow_step(self, f: usize) -> Option<usize> {
        if self.is_type(f, "FlowEnd"@) {
            match head(self.of_type(self.owned(f), "FeatureMembership"@)) {
                Some(m) => self.first_child(m),
                None => None,
            }
        } else {
            None
        }
    }

    /// One end of a connector; a flow end's last step is a redefinition.
    #[verifier::opaque]
    pub open spec fn end_target(self, f: usize) -> EndV {
        let end = self.plain_end(f);
        match self.flow_step(f) {
            Some(u) => match self.rel_target(u, "Redefinition"@, "redefinedFeature"@) {
                Some(t) => EndV { chain: end.chain.push(t), ..end },
                None => EndV {
                    spelling: or_name(
                        end.spelling,
                        self.rel_spelling(u, "Redefinition"@, "redefinedFeature"@),
                    ),
                    ..end
                },
            },
            None => end,
        }
    }

    /// The ends of a connector, in order.
    #[verifier::opaque]
    pub open spec fn connector_ends(self, e: usize) -> Seq<EndV> {
        self.firsts(self.of_type(self.owned(e), "EndFeatureMembership"@)).map_values(
            |f: usize| self.end_target(f),
        )
    }

    /// The state that a succession leads to: the last link of its last end
    /// that names one.
    #[verifier::opaque]
    pub open spec fn succession_target(self, s: usize) -> Option<usize> {
        last_named(self.connector_ends(s), self.connector_ends(s).len() as int)
    }

    /// The state that a transition enters.
    #[verifier::opaque]
    pub open spec fn transition_last(self, e: usize) -> Option<usize> {
        match last(self.successions(self.firsts(self.of_type(self.owned(e), "OwningMembership"@)))) {
            Some(s) => self.succession_target(s),
            None => None,
        }
    }

    /// The imports of an element from `k` on that name something.
    pub open spec fn details_from(self, s: Seq<usize>, k: int) -> Seq<ImportDetailV>
        decreases s.len() - k,
        when 0 <= k
    {
        if k >= s.len() {
            Seq::empty()
        } else {
            match self.import_target(s[k]) {
                Some(t) => seq![
                    ImportDetailV {
                        target: t,
                        is_namespace: self.imports_namespace(s[k]),
                        recursive: self.flag(s[k], "isRecursive"@),
                        visibility: match self.text(s[k], "visibility"@) {
                            Some(v) => v,
                            None => "public"@,
                        },
                    },
                ] + self.details_from(s, k + 1),
                None => self.details_from(s, k + 1),
            }
        }
    }

    /// The body of a note, where it says something.
    #[verifier::opaque]
    pub open spec fn note_body(self, e: usize) -> Option<Seq<char>> {
        if self.is_note(e) {
            match self.text(e, "body"@) {
                Some(b) => if blank(b) {
                    None
                } else {
                    Some(b)
                },
                None => None,
            }
        } else {
            None
        }
    }

    /// What a note is about: what it names, or else its owner.
    #[verifier::opaque]
    pub open spec fn note_subjects(self, e: usize) -> Seq<usize> {
        let s = self.annotated_elements(e);
        if s.len() == 0 {
            unit(crate::queries::owner_of(self.g, e))
        } else {
            s
        }
    }

    /// The notes of the elements from `e` up to `end`.
    pub open spec fn notes_from(self, e: int, end: int) -> Seq<NoteV>
        decreases end - e,
    {
        if e >= end {
            Seq::empty()
        } else {
            match self.note_body(e as usize) {
                Some(body) => self.note_subjects(e as usize).map_values(
                    |a: usize| NoteV {
                        note: e as usize,
                        about: a,
                        name: self.text(e as usize, "declaredName"@),
                        body,
                    },
                ) + self.notes_from(e + 1, end),
                None => self.notes_from(e + 1, end),
            }
        }
    }
}

/// The last link of the last of the first `k` ends that names any.
pub open spec fn last_named(s: Seq<EndV>, k: int) -> Option<usize>
    decreases k,
{
    if k <= 0 {
        None
    } else if s[k - 1].chain.len() > 0 {
        Some(s[k - 1].chain.last())
    } else {
        last_named(s, k - 1)
    }
}

impl Derivation {
    pub fn ends_membership(&self, e: usize) -> (r: bool)
        requires
            self.ok(),
            e < self@.n(),
        ensures
            r == self@.ends_membership(e),
    {
        proof {
            reveal(Derivation::view);
        }
        self.graph.membership(e)
    }

    fn begins_succession(&self, e: usize) -> (r: bool)
        requires
            self.ok(),
            e < self@.n(),
        ensures
            r == self@.begins_succession(e),
    {
        proof {
            reveal(Derivation::view);
        }
        has_prefix(self.graph.ty_of(e), "Succession")
    }

    fn chain_links(&self, s: &Vec<usize>) -> (r: Vec<usize>)
        requires
            self.ok(),
            all_below(s@, self@.n()),
        ensures
            r@ == self@.chain_links(s@, 0),
            all_below(r@, self@.n()),
    {
        let mut out: Vec<usize> = Vec::new();
        let n: usize = s.len();
        let mut k: usize = 0;
        let ghost whole = self@.chain_links(s@, 0);
        assert(out@ + whole =~= whole);
        while k < n
            invariant
                self.ok(),
                all_below(s@, self@.n()),
                n == s@.len(),
                k <= n,
                all_below(out@, self@.n()),
                whole == self@.chain_links(s@, 0),
                out@ + self@.chain_links(s@, k as int) == whole,
            decreases n - k,
        {
            let ghost before = out@;
            match self.target(s[k], "chainingFeature") {
                Some(t) => {
                    out.push(t);
                    assert(before + (seq![t] + self@.chain_links(s@, k + 1)) =~= out@
                        + self@.chain_links(s@, k + 1));
                },
                None => {
                    assert(out@ + Seq::<usize>::empty() =~= out@);
                    return out;
                },
            }
            k += 1;
        }
        assert(out@ + Seq::<usize>::empty() =~= out@);
        out
    }

    /// The written chain of a feature.
    pub fn expand_chain(&self, t: usize) -> (r: Vec<usize>)
        requires
            self.ok(),
            t < self@.n(),
        ensures
            r@ == self@.expand_chain(t),
            all_below(r@, self@.n()),
    {
        proof {
            reveal(DV::expand_chain);
        }
        let c: Vec<usize> = self.of_type(&self.owned(t), "FeatureChaining");
        if c.len() == 0 {
            make_unit(Some(t))
        } else {
            self.chain_links(&c)
        }
    }

    fn rel_spelling(&self, e: usize, ty: &str, key: &str) -> (r: Option<String>)
        requires
            self.ok(),
            e < self@.n(),
        ensures
            opt_text(r) == self@.rel_spelling(e, ty@, key@),
    {
        proof {
            reveal(DV::rel_spelling);
            reveal(Derivation::view);
        }
        match get_head(&self.of_type(&self.owned(e), ty)) {
            Some(r) => match self.graph.link_of(r, key) {
                Some(Link::Name(s)) => Some(s),
                _ => None,
            },
            None => None,
        }
    }

    fn plain_end(&self, f: usize) -> (r: ConnectorEndTarget)
        requires
            self.ok(),
            f < self@.n(),
        ensures
            r@ == self@.plain_end(f),
    {
        proof {
            reveal(DV::plain_end);
        }
        match self.rel_target(f, "ReferenceSubsetting", "referencedFeature") {
            Some(t) => ConnectorEndTarget { chain: self.expand_chain(t), spelling: None, feature: f },
            None => {
                let none: Vec<usize> = Vec::new();
                assert(none@ =~= Seq::<usize>::empty());
                ConnectorEndTarget {
                    chain: none,
                    spelling: self.rel_spelling(f, "ReferenceSubsetting", "referencedFeature"),
                    feature: f,
                }
            },
        }
    }

    fn flow_step(&self, f: usize) -> (r: Option<usize>)
        requires
            self.ok(),
            f < self@.n(),
        ensures
            r == self@.flow_step(f),
            below(r, self@.n()),
    {
        proof {
            reveal(DV::flow_step);
        }
        if self.is_type(f, "FlowEnd") {
            match get_head(&self.of_type(&self.owned(f), "FeatureMembership")) {
                Some(m) => self.first_child(m),
                None => None,
            }
        } else {
            None
        }
    }

    fn end_target(&self, f: usize) -> (r: ConnectorEndTarget)
        requires
            self.ok(),
            f < self@.n(),
        ensures
            r@ == self@.end_target(f),
    {
        proof {
            reveal(DV::end_target);
        }
        let end: ConnectorEndTarget = self.plain_end(f);
        match self.flow_step(f) {
            Some(u) => match self.rel_target(u, "Redefinition", "redefinedFeature") {
                Some(t) => {
                    let mut chain: Vec<usize> = end.chain;
                    chain.push(t);
                    ConnectorEndTarget { chain, spelling: end.spelling, feature: end.feature }
                },
                None => {
                    let spelling: Option<String> = match end.spelling {
                        Some(s) => Some(s),
                        None => self.rel_spelling(u, "Redefinition", "redefinedFeature"),
                    };
                    ConnectorEndTarget { chain: end.chain, spelling, feature: end.feature }
                },
            },
            None => end,
        }
    }

    /// The ends of a connector, in order: the chain of features each names,
    /// or the spelling that did not resolve.
    pub fn connector_end_targets(&self, e: usize) -> (r: Vec<ConnectorEndTarget>)
        requires
            self.ok(),
            e < self@.n(),
        ensures
            ends_view(r@) == self@.connector_ends(e),
    {
        proof {
            reveal(DV::connector_ends);
        }
        let fs: Vec<usize> = self.firsts(&self.of_type(&self.owned(e), "EndFeatureMembership"));
        let mut out: Vec<ConnectorEndTarget> = Vec::new();
        let n: usize = fs.len();
        let mut k: usize = 0;
        let ghost want = fs@.map_values(|f: usize| self@.end_target(f));
        while k < n
            invariant
                self.ok(),
                all_below(fs@, self@.n()),
                n == fs@.len(),
                k <= n,
                want == fs@.map_values(|f: usize| self@.end_target(f)),
                ends_view(out@) == want.take(k as int),
            decreases n - k,
        {
            let x: ConnectorEndTarget = self.end_target(fs[k]);
            let ghost before = ends_view(out@);
            let ghost xv = x@;
            out.push(x);
            assert(ends_view(out@) =~= before.push(xv));
            assert(want[k as int] == xv);
            assert(want.take(k + 1) =~= before.push(want[k as int]));
            k += 1;
        }
        assert(want.take(n as int) =~= want);
        out
    }

    fn succession_target(&self, s: usize) -> (r: Option<usize>)
        requires
            self.ok(),
            s < self@.n(),
        ensures
            r == self@.succession_target(s),
    {
        proof {
            reveal(DV::succession_target);
        }
        let ends: Vec<ConnectorEndTarget> = self.connector_end_targets(s);
        let ghost ev = ends_view(ends@);
        let mut k: usize = ends.len();
        while k > 0
            invariant
                k <= ends@.len(),
                ev == ends_view(ends@),
                ev == self@.connector_ends(s),
                self@.succession_target(s) == last_named(ev, k as int),
            decreases k,
        {
            k -= 1;
            assert(ev[k as int] == ends@[k as int]@);
            let n: usize = ends[k].chain.len();
            if n > 0 {
                return Some(ends[k].chain[n - 1]);
            }
        }
        None
    }

    fn transition_last(&self, e: usize) -> (r: Option<usize>)
        requires
            self.ok(),
            e < self@.n(),
        ensures
            r == self@.transition_last(e),
    {
        proof {
            reveal(DV::transition_last);
        }
        match get_last(
            &self.successions(&self.firsts(&self.of_type(&self.owned(e), "OwningMembership"))),
        ) {
            Some(s) => self.succession_target(s),
            None => None,
        }
    }

    /// The parts of a transition: the states it leaves and enters, its
    /// trigger, its effect, and its guard as written.
    pub fn transition_parts(&self, e: usize) -> (r: TransitionParts)
        requires
            self.ok(),
            e < self@.n(),
        ensures
            r.source == self@.transition_first(e),
            r.target == self@.transition_last(e),
            r.trigger == self@.transition_part(e, "trigger"@),
            r.effect == self@.transition_part(e, "effect"@),
            r.guard == (match self@.g.elements[e as int].notes.guard {
                Some((_, x)) => Some(x),
                None => None,
            }),
    {
        let source = self.transition_first(e);
        let target = self.transition_last(e);
        let trigger = self.transition_part(e, "trigger");
        let effect = self.transition_part(e, "effect");
        proof {
            reveal(Derivation::view);
            reveal(Builder::view);
        }
        let guard: Option<Rc<Expr>> = match &self.graph.elements[e].notes.guard {
            Some((_, x)) => Some(x.clone()),
            None => None,
        };
        TransitionParts { source, target, trigger, effect, guard }
    }

    /// The imports of an element with what they import.
    pub fn import_details(&self, e: usize) -> (r: Vec<ImportDetail>)
        requires
            self.ok(),
            e < self@.n(),
        ensures
            details_view(r@) == self@.details_from(self@.owned(e), 0),
    {
        let s: Vec<usize> = self.owned(e);
        let mut out: Vec<ImportDetail> = Vec::new();
        let n: usize = s.len();
        let mut k: usize = 0;
        let ghost whole = self@.details_from(s@, 0);
        assert(details_view(out@) + whole =~= whole);
        while k < n
            invariant
                self.ok(),
                all_below(s@, self@.n()),
                n == s@.len(),
                k <= n,
                details_view(out@) + self@.details_from(s@, k as int) == whole,
            decreases n - k,
        {
            let ghost before = details_view(out@);
            let ghost rest = self@.details_from(s@, k + 1);
            if let Some(t) = self.import_target(s[k]) {
                let visibility: String = match self.text(s[k], "visibility") {
                    Some(v) => v,
                    None => "public".to_owned(),
                };
                let x = ImportDetail {
                    target: t,
                    is_namespace: self.imports_namespace(s[k]),
                    recursive: self.flag(s[k], "isRecursive"),
                    visibility,
                };
                let ghost xv = x@;
                out.push(x);
                assert(details_view(out@) =~= before.push(xv));
                assert(before + (seq![xv] + rest) =~= details_view(out@) + rest);
            }
            k += 1;
        }
        assert(details_view(out@) + Seq::<ImportDetailV>::empty() =~= details_view(out@));
        out
    }

    pub fn note_body(&self, e: usize) -> (r: Option<String>)
        requires
            self.ok(),
            e < self@.n(),
        ensures
            opt_text(r) == self@.note_body(e),
    {
        proof {
            reveal(DV::note_body);
        }
        if !self.is_note(e) {
            return None;
        }
        match self.text(e, "body") {
            Some(b) => if is_blank(b.as_str()) {
                None
            } else {
                Some(b)
            },
            None => None,
        }
    }

    fn note_subjects(&self, e: usize) -> (r: Vec<usize>)
        requires
            self.ok(),
            e < self@.n(),
        ensures
            r@ == self@.note_subjects(e),
    {
        proof {
            reveal(DV::note_subjects);
        }
        let s: Vec<usize> = self.annotated_elements(e);
        if s.len() == 0 {
            proof {
                reveal(Derivation::view);
                reveal(Derivation::ok);
                reveal(DV::ok);
            }
            make_unit(self.graph.owner(e))
        } else {
            s
        }
    }

    fn push_notes(&self, e: usize, body: &str, out: &mut Vec<Note>)
        requires
            self.ok(),
            e < self@.n(),
        ensures
            notes_view(final(out)@) == notes_view(old(out)@) + self@.note_subjects(e).map_values(
                |a: usize| NoteV {
                    note: e,
                    about: a,
                    name: self@.text(e, "declaredName"@),
                    body: body@,
                },
            ),
    {
        let s: Vec<usize> = self.note_subjects(e);
        let n: usize = s.len();
        let mut k: usize = 0;
        let ghost want = s@.map_values(
            |a: usize| NoteV { note: e, about: a, name: self@.text(e, "declaredName"@), body: body@ },
        );
        assert(notes_view(out@) =~= notes_view(old(out)@) + want.take(0));
        while k < n
            invariant
                self.ok(),
                e < self@.n(),
                n == s@.len(),
                k <= n,
                want == s@.map_values(
                    |a: usize| NoteV {
                        note: e,
                        about: a,
                        name: self@.text(e, "declaredName"@),
                        body: body@,
                    },
                ),
                notes_view(out@) == notes_view(old(out)@) + want.take(k as int),
            decreases n - k,
        {
            let x = Note {
                note: e,
                about: s[k],
                name: self.text(e, "declaredName"),
                body: body.to_owned(),
            };
            let ghost before = notes_view(out@);
            let ghost xv = x@;
            out.push(x);
            assert(notes_view(out@) =~= before.push(xv));
            assert(want[k as int] == xv);
            assert(want.take(k + 1) =~= want.take(k as int).push(xv));
            assert(notes_view(out@) =~= notes_view(old(out)@) + want.take(k + 1));
            k += 1;
        }
        assert(want.take(n as int) =~= want);
    }

    /// The comments and documentation of the user's units, each with what it
    /// is about: what it names, or else its owner.
    pub fn annotation_notes(&self) -> (r: Vec<Note>)
        requires
            self.ok(),
        ensures
            notes_view(r@) == self@.notes_from(self@.lib_boundary as int, self@.from as int),
    {
        proof {
            reveal(Derivation::view);
            reveal(Derivation::ok);
            reveal(DV::ok);
        }
        let mut out: Vec<Note> = Vec::new();
        let end: usize = self.from;
        let mut e: usize = self.lib_boundary;
        let ghost whole = self@.notes_from(self@.lib_boundary as int, end as int);
        assert(notes_view(out@) + whole =~= whole);
        while e < end
            invariant
                self.ok(),
                end <= self@.n(),
                notes_view(out@) + self@.notes_from(e as int, end as int) == whole,
            decreases end - e,
        {
            let ghost before = notes_view(out@);
            let ghost rest = self@.notes_from(e + 1, end as int);
            if let Some(body) = self.note_body(e) {
                self.push_notes(e, body.as_str(), &mut out);
                let ghost here = self@.note_subjects(e).map_values(
                    |a: usize| NoteV {
                        note: e,
                        about: a,
                        name: self@.text(e, "declaredName"@),
                        body: body@,
                    },
                );
                assert(before + (here + rest) =~= notes_view(out@) + rest);
            }
            e += 1;
        }
        assert(notes_view(out@) + Seq::<NoteV>::empty() =~= notes_view(out@));
        out
    }
}

} // verus!
