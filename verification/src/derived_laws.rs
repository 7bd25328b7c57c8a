//! What the derived properties of an element are, told from the graph: who owns
//! what, through which kind of relationship, and what it spells.
use crate::derive_base::{RefV, DV};
use crate::derived::{DerivedV, ValueOf};
use crate::derived_words::{lemma_no_member_sides, lemma_shapes, lemma_written_names};
use crate::derived_table::{hand_written, listed, member_side_names};
use crate::graph_get::{flag_prop, link_prop};
use crate::naming_ids::text_prop;
use vstd::prelude::*;

verus! {

/// Whether a property that is answered is answered so.
pub open spec fn answered(d: DV, e: usize, name: Seq<char>, v: ValueOf) -> bool {
    d.derived(e, name) is Value ==> d.derived(e, name) == DerivedV::Value(v)
}

/// Whether an element is of a metaclass or a special one of it.
pub open spec fn is_a(d: DV, kind: Seq<char>) -> spec_fn(usize) -> bool {
    |x: usize| d.mm.conforms(d.g.elements[x as int].ty, kind)
}

/// Whether an element spells a property so.
pub open spec fn reads(d: DV, key: Seq<char>, value: Seq<char>) -> spec_fn(usize) -> bool {
    |x: usize| text_prop(d.g.elements[x as int], key) == Some(value)
}

/// Whether a property of an element is set.
pub open spec fn is_set(d: DV, key: Seq<char>) -> spec_fn(usize) -> bool {
    |x: usize| flag_prop(d.g.elements[x as int].props, key) == Some(true)
}

/// The first element that each of some relationships owns, in order; those that
/// own none are left out.
pub open spec fn members_of(d: DV, rels: Seq<usize>) -> Seq<usize> {
    rels.filter(|r: usize| d.g.elements[r as int].children.len() > 0).map_values(
        |r: usize| d.g.elements[r as int].children[0],
    )
}

/// The relationships of a kind that an element owns, in order.
pub open spec fn owned_as(d: DV, e: usize, kind: Seq<char>) -> Seq<usize> {
    d.g.elements[e as int].owned.filter(is_a(d, kind))
}

/// What owns a relationship, be it written or implied.
pub open spec fn holder(d: DV, r: usize) -> Option<usize> {
    if r < d.from {
        d.g.elements[r as int].carrier
    } else {
        Some(d.implied_owner[r - d.from])
    }
}

pub open spec fn one(o: Option<usize>) -> ValueOf {
    match o {
        Some(x) => ValueOf::Element(x),
        None => ValueOf::Null,
    }
}

/// The first of a list, as a value.
pub open spec fn first_of(s: Seq<usize>) -> ValueOf {
    if s.len() > 0 {
        ValueOf::Element(s[0])
    } else {
        ValueOf::Null
    }
}

pub open spec fn first_ref(s: Seq<RefV>) -> ValueOf {
    if s.len() > 0 {
        ValueOf::Reference(s[0])
    } else {
        ValueOf::Null
    }
}

proof fn lemma_filter_front(s: Seq<usize>, p: spec_fn(usize) -> bool, k: int)
    requires
        0 <= k < s.len(),
    ensures
        s.skip(k).filter(p) == (if p(s[k]) {
            seq![s[k]] + s.skip(k + 1).filter(p)
        } else {
            s.skip(k + 1).filter(p)
        }),
{
    let one = seq![s[k]];
    assert(s.skip(k) =~= one + s.skip(k + 1));
    Seq::filter_distributes_over_add(one, s.skip(k + 1), p);
    assert(one.filter(p) =~= (if p(s[k]) {
        one
    } else {
        Seq::empty()
    })) by {
        reveal(Seq::filter);
        assert(one.drop_last() =~= Seq::<usize>::empty());
        assert(one.drop_last().filter(p) =~= Seq::<usize>::empty());
    }
    assert(Seq::<usize>::empty() + s.skip(k + 1).filter(p) =~= s.skip(k + 1).filter(p));
}

proof fn lemma_filter_end(s: Seq<usize>, p: spec_fn(usize) -> bool, k: int)
    requires
        k >= s.len(),
    ensures
        k == s.len() ==> s.skip(k).filter(p) == Seq::<usize>::empty(),
{
    reveal(Seq::filter);
    if k == s.len() {
        assert(s.skip(k) =~= Seq::<usize>::empty());
    }
}

proof fn lemma_of_kind(d: DV, s: Seq<usize>, kind: Seq<char>, k: int)
    requires
        0 <= k <= s.len(),
    ensures
        d.of_kind_from(s, kind, k) == s.skip(k).filter(is_a(d, kind)),
    decreases s.len() - k,
{
    reveal(DV::if_kind);
    if k < s.len() {
        lemma_of_kind(d, s, kind, k + 1);
        lemma_filter_front(s, is_a(d, kind), k);
    } else {
        lemma_filter_end(s, is_a(d, kind), k);
    }
}

proof fn lemma_kinds(d: DV, s: Seq<usize>, kind: Seq<char>)
    ensures
        d.of_kind(s, kind) == s.filter(is_a(d, kind)),
{
    reveal(DV::of_kind);
    lemma_of_kind(d, s, kind, 0);
    assert(s.skip(0) =~= s);
}

proof fn lemma_text_from(d: DV, s: Seq<usize>, key: Seq<char>, value: Seq<char>, k: int)
    requires
        0 <= k <= s.len(),
    ensures
        d.with_text_from(s, key, value, k) == s.skip(k).filter(reads(d, key, value)),
    decreases s.len() - k,
{
    reveal(DV::if_text);
    if k < s.len() {
        lemma_text_from(d, s, key, value, k + 1);
        lemma_filter_front(s, reads(d, key, value), k);
    } else {
        lemma_filter_end(s, reads(d, key, value), k);
    }
}

proof fn lemma_texts(d: DV, s: Seq<usize>, key: Seq<char>, value: Seq<char>)
    ensures
        d.with_text(s, key, value) == s.filter(reads(d, key, value)),
{
    reveal(DV::with_text);
    lemma_text_from(d, s, key, value, 0);
    assert(s.skip(0) =~= s);
}

proof fn lemma_flagged_from(d: DV, s: Seq<usize>, key: Seq<char>, k: int)
    requires
        0 <= k <= s.len(),
    ensures
        d.flagged_from(s, key, k) == s.skip(k).filter(is_set(d, key)),
    decreases s.len() - k,
{
    reveal(DV::if_flag);
    if k < s.len() {
        lemma_flagged_from(d, s, key, k + 1);
        lemma_filter_front(s, is_set(d, key), k);
    } else {
        lemma_filter_end(s, is_set(d, key), k);
    }
}

proof fn lemma_flagged(d: DV, s: Seq<usize>, key: Seq<char>)
    ensures
        d.flagged(s, key) == s.filter(is_set(d, key)),
{
    reveal(DV::flagged);
    lemma_flagged_from(d, s, key, 0);
    assert(s.skip(0) =~= s);
}

proof fn lemma_firsts_from(d: DV, s: Seq<usize>, k: int)
    requires
        0 <= k <= s.len(),
    ensures
        d.firsts_from(s, k) == members_of(d, s.skip(k)),
    decreases s.len() - k,
{
    reveal(DV::first_child);
    let p = |r: usize| d.g.elements[r as int].children.len() > 0;
    let f = |r: usize| d.g.elements[r as int].children[0];
    if k < s.len() {
        lemma_firsts_from(d, s, k + 1);
        lemma_filter_front(s, p, k);
        let rest = s.skip(k + 1).filter(p);
        if p(s[k]) {
            assert((seq![s[k]] + rest).map_values(f) =~= seq![f(s[k])] + rest.map_values(f));
        }
    } else {
        lemma_filter_end(s, p, k);
        assert(Seq::<usize>::empty().map_values(f) =~= Seq::<usize>::empty());
    }
}

proof fn lemma_firsts(d: DV, s: Seq<usize>)
    ensures
        d.firsts(s) == members_of(d, s),
{
    reveal(DV::firsts);
    lemma_firsts_from(d, s, 0);
    assert(s.skip(0) =~= s);
}

proof fn lemma_owned(d: DV, e: usize, kind: Seq<char>)
    ensures
        d.owned_of_kind(e, kind) == owned_as(d, e, kind),
{
    reveal(DV::owned_of_kind);
    lemma_kinds(d, d.g.elements[e as int].owned, kind);
}

/// A name that is computed on its own is answered by its computation.
proof fn lemma_own(d: DV, e: usize, name: Seq<char>)
    requires
        hand_written(name),
        !listed(member_side_names(), name),
        d.own_value(e, name) is Some,
    ensures
        answered(d, e, name, d.own_value(e, name)->0),
{
    reveal(DV::derived);
    let ty = d.g.elements[e as int].ty;
    if d.mm.member_side(ty, name) is Some {
        d.mm.lemma_member_side_listed(ty, name, 0);
    }
}

/// The owner of an element is what holds the relationship that owns it; where
/// that is a membership, it is the element's owning membership and its holder
/// the owning namespace.
#[verifier::spinoff_prover]
#[verifier::rlimit(40)]
pub proof fn law_owners_hold_the_owning_relationship(d: DV, e: usize)
    ensures
        ({
            let rel = d.g.elements[e as int].owning;
            let membership = match rel {
                Some(r) => if is_a(d, "Membership"@)(r) {
                    Some(r)
                } else {
                    None
                },
                None => None,
            };
            let feature = match rel {
                Some(r) => if is_a(d, "FeatureMembership"@)(r) {
                    Some(r)
                } else {
                    None
                },
                None => None,
            };
            let held = |o: Option<usize>|
                match o {
                    Some(r) => one(holder(d, r)),
                    None => ValueOf::Null,
                };
            &&& answered(d, e, "owner"@, held(rel))
            &&& answered(d, e, "owningMembership"@, one(membership))
            &&& answered(d, e, "owningNamespace"@, held(membership))
            &&& answered(d, e, "owningFeatureMembership"@, one(feature))
            &&& answered(d, e, "membershipOwningNamespace"@, one(holder(d, e)))
        }),
{
    lemma_shapes();
    lemma_written_names();
    lemma_no_member_sides();
    reveal(DV::own_value);
    reveal(DV::closure_value);
    reveal(DV::connection_value);
    reveal(DV::ownership_value);
    reveal(DV::owners_value);
    reveal(DV::owner);
    reveal(DV::owning_membership);
    reveal(DV::owning_namespace);
    reveal(DV::owning_feature_membership);
    reveal(DV::if_kind);
    lemma_own(d, e, "owner"@);
    lemma_own(d, e, "owningMembership"@);
    lemma_own(d, e, "owningNamespace"@);
    lemma_own(d, e, "owningFeatureMembership"@);
    lemma_own(d, e, "membershipOwningNamespace"@);
}

/// What an element owns by kind: the relationships of the kind among those it
/// owns, and the members that they own, each in order.
#[verifier::spinoff_prover]
#[verifier::rlimit(40)]
pub proof fn law_owned_elements_come_through_their_relationships(d: DV, e: usize)
    ensures
        ({
            let memberships = owned_as(d, e, "Membership"@);
            let features = owned_as(d, e, "FeatureMembership"@);
            &&& answered(d, e, "ownedMembership"@, ValueOf::Elements(memberships))
            &&& answered(
                d,
                e,
                "ownedMember"@,
                ValueOf::Elements(
                    members_of(d, memberships.filter(is_a(d, "OwningMembership"@))),
                ),
            )
            &&& answered(d, e, "ownedImport"@, ValueOf::Elements(owned_as(d, e, "Import"@)))
            &&& answered(d, e, "ownedFeatureMembership"@, ValueOf::Elements(features))
            &&& answered(d, e, "ownedFeature"@, ValueOf::Elements(members_of(d, features)))
            &&& d.passthrough() ==> answered(
                d,
                e,
                "feature"@,
                ValueOf::Elements(members_of(d, features)),
            )
            &&& answered(
                d,
                e,
                "ownedEndFeature"@,
                ValueOf::Elements(members_of(d, features).filter(is_set(d, "isEnd"@))),
            )
        }),
{
    lemma_shapes();
    lemma_written_names();
    lemma_no_member_sides();
    reveal(DV::own_value);
    reveal(DV::closure_value);
    reveal(DV::connection_value);
    reveal(DV::ownership_value);
    reveal(DV::owners_value);
    reveal(DV::annotations_value);
    reveal(DV::behavior_value);
    reveal(DV::more_value);
    reveal(DV::references_value);
    reveal(DV::members_value);
    reveal(DV::owned_memberships);
    reveal(DV::owned_members);
    reveal(DV::owned_imports);
    reveal(DV::owned_feature_memberships);
    reveal(DV::owned_features);
    reveal(DV::features);
    reveal(DV::ends);
    lemma_owned(d, e, "Membership"@);
    lemma_owned(d, e, "Import"@);
    lemma_owned(d, e, "FeatureMembership"@);
    lemma_kinds(d, d.owned_memberships(e), "OwningMembership"@);
    lemma_firsts(d, d.of_kind(d.owned_memberships(e), "OwningMembership"@));
    lemma_firsts(d, d.owned_feature_memberships(e));
    lemma_flagged(d, d.owned_features(e), "isEnd"@);
    lemma_own(d, e, "ownedMembership"@);
    lemma_own(d, e, "ownedMember"@);
    lemma_own(d, e, "ownedImport"@);
    lemma_own(d, e, "ownedFeatureMembership"@);
    lemma_own(d, e, "ownedFeature"@);
    lemma_own(d, e, "feature"@);
    lemma_own(d, e, "ownedEndFeature"@);
}

/// The direction that a feature spells, if any.
pub open spec fn spelled(d: DV, f: usize) -> Option<Seq<char>> {
    text_prop(d.g.elements[f as int], "direction"@)
}

/// Whether the membership that owns a feature is of a kind that gives it a
/// direction: a trigger's expression takes none from it.
pub open spec fn placed_as(d: DV, f: usize, kind: Seq<char>) -> bool {
    d.g.elements[f as int].ty != "TriggerInvocationExpression"@ && match d.g.elements[f as int].owning {
        Some(m) => is_a(d, kind)(m),
        None => false,
    }
}

/// Whether a feature takes something in: it is spelled `in` or `inout`, or
/// spells nothing and is a parameter that is not returned.
pub open spec fn takes_in(d: DV, f: usize) -> bool {
    match spelled(d, f) {
        Some(s) => s == "in"@ || s == "inout"@,
        None => placed_as(d, f, "ParameterMembership"@) && !placed_as(
            d,
            f,
            "ReturnParameterMembership"@,
        ),
    }
}

/// Whether a feature gives something out: it is spelled `out` or `inout`, or
/// spells nothing and is returned.
pub open spec fn gives_out(d: DV, f: usize) -> bool {
    match spelled(d, f) {
        Some(s) => s == "out"@ || s == "inout"@,
        None => placed_as(d, f, "ReturnParameterMembership"@),
    }
}

proof fn lemma_inputs(d: DV, s: Seq<usize>, k: int)
    requires
        0 <= k <= s.len(),
    ensures
        d.inputs_from(s, k) == s.skip(k).filter(|f: usize| takes_in(d, f)),
    decreases s.len() - k,
{
    reveal(DV::if_input);
    reveal(DV::is_input);
    reveal(DV::has_direction);
    reveal(DV::default_direction);
    let p = |f: usize| takes_in(d, f);
    if k < s.len() {
        lemma_inputs(d, s, k + 1);
        lemma_filter_front(s, p, k);
        assert(d.is_input(s[k]) == p(s[k]));
    } else {
        lemma_filter_end(s, p, k);
    }
}

proof fn lemma_outputs(d: DV, s: Seq<usize>, k: int)
    requires
        0 <= k <= s.len(),
    ensures
        d.outputs_from(s, k) == s.skip(k).filter(|f: usize| gives_out(d, f)),
    decreases s.len() - k,
{
    reveal(DV::if_output);
    reveal(DV::is_output);
    reveal(DV::has_direction);
    reveal(DV::default_direction);
    let p = |f: usize| gives_out(d, f);
    if k < s.len() {
        lemma_outputs(d, s, k + 1);
        lemma_filter_front(s, p, k);
        assert(d.is_output(s[k]) == p(s[k]));
    } else {
        lemma_filter_end(s, p, k);
    }
}

proof fn lemma_directed(d: DV, s: Seq<usize>, k: int)
    requires
        0 <= k <= s.len(),
    ensures
        d.directed_from(s, k) == s.skip(k).filter(
            |f: usize|
                spelled(d, f) is Some || placed_as(d, f, "ParameterMembership"@) || placed_as(
                    d,
                    f,
                    "ReturnParameterMembership"@,
                ),
        ),
    decreases s.len() - k,
{
    reveal(DV::if_directed);
    reveal(DV::is_directed);
    reveal(DV::has_direction);
    reveal(DV::default_direction);
    let p = |f: usize|
        spelled(d, f) is Some || placed_as(d, f, "ParameterMembership"@) || placed_as(
            d,
            f,
            "ReturnParameterMembership"@,
        );
    if k < s.len() {
        lemma_directed(d, s, k + 1);
        lemma_filter_front(s, p, k);
        assert(d.is_directed(s[k]) == p(s[k]));
    } else {
        lemma_filter_end(s, p, k);
    }
}

/// The inputs of a type are those of its features that take something in, its
/// outputs those that give something out, and its parameters those that do
/// either; in order. A feature spelled `in` is no output, and one spelled `out`
/// no input.
#[verifier::spinoff_prover]
#[verifier::rlimit(40)]
pub proof fn law_directions_sort_the_features(d: DV, e: usize)
    ensures
        ({
            let fs = d.features(e);
            &&& answered(d, e, "input"@, ValueOf::Elements(fs.filter(|f: usize| takes_in(d, f))))
            &&& answered(d, e, "output"@, ValueOf::Elements(fs.filter(|f: usize| gives_out(d, f))))
            &&& answered(
                d,
                e,
                "directedFeature"@,
                ValueOf::Elements(
                    fs.filter(
                        |f: usize|
                            spelled(d, f) is Some || placed_as(d, f, "ParameterMembership"@)
                                || placed_as(d, f, "ReturnParameterMembership"@),
                    ),
                ),
            )
            &&& answered(
                d,
                e,
                "endFeature"@,
                ValueOf::Elements(fs.filter(is_set(d, "isEnd"@))),
            )
        }),
{
    lemma_shapes();
    lemma_written_names();
    lemma_no_member_sides();
    reveal(DV::own_value);
    reveal(DV::closure_value);
    reveal(DV::connection_value);
    reveal(DV::ownership_value);
    reveal(DV::owners_value);
    reveal(DV::annotations_value);
    reveal(DV::behavior_value);
    reveal(DV::more_value);
    reveal(DV::references_value);
    reveal(DV::members_value);
    reveal(DV::inputs);
    reveal(DV::outputs);
    reveal(DV::directed);
    reveal(DV::ends);
    let fs = d.features(e);
    assert(fs.skip(0) =~= fs);
    lemma_inputs(d, fs, 0);
    lemma_outputs(d, fs, 0);
    lemma_directed(d, fs, 0);
    lemma_flagged(d, fs, "isEnd"@);
    lemma_own(d, e, "input"@);
    lemma_own(d, e, "output"@);
    lemma_own(d, e, "directedFeature"@);
    lemma_own(d, e, "endFeature"@);
}

/// The entry, do and exit actions of a state, and the triggers, guards and
/// effects of a transition, are what it owns through memberships that spell
/// that kind.
#[verifier::spinoff_prover]
#[verifier::rlimit(40)]
pub proof fn law_subactions_go_by_their_kind(d: DV, e: usize)
    ensures
        ({
            let subs = owned_as(d, e, "StateSubactionMembership"@);
            let action = |kind: Seq<char>|
                {
                    let found = subs.filter(reads(d, "kind"@, kind));
                    if found.len() > 0 && d.g.elements[found[0] as int].children.len() > 0 {
                        ValueOf::Element(d.g.elements[found[0] as int].children[0])
                    } else {
                        ValueOf::Null
                    }
                };
            let parts = owned_as(d, e, "TransitionFeatureMembership"@);
            let part = |kind: Seq<char>, general: Seq<char>|
                ValueOf::Elements(
                    members_of(d, parts.filter(reads(d, "kind"@, kind))).filter(is_a(d, general)),
                );
            &&& answered(d, e, "entryAction"@, action("entry"@))
            &&& answered(d, e, "doAction"@, action("do"@))
            &&& answered(d, e, "exitAction"@, action("exit"@))
            &&& answered(d, e, "triggerAction"@, part("trigger"@, "AcceptActionUsage"@))
            &&& answered(d, e, "guardExpression"@, part("guard"@, "Expression"@))
            &&& answered(d, e, "effectAction"@, part("effect"@, "ActionUsage"@))
        }),
{
    lemma_shapes();
    lemma_written_names();
    lemma_no_member_sides();
    reveal(DV::own_value);
    reveal(DV::closure_value);
    reveal(DV::connection_value);
    reveal(DV::ownership_value);
    reveal(DV::owners_value);
    reveal(DV::annotations_value);
    reveal(DV::behavior_value);
    reveal(DV::state_subaction);
    reveal(DV::transition_features);
    reveal(DV::first_child);
    lemma_owned(d, e, "StateSubactionMembership"@);
    lemma_owned(d, e, "TransitionFeatureMembership"@);
    let subs = owned_as(d, e, "StateSubactionMembership"@);
    let parts = owned_as(d, e, "TransitionFeatureMembership"@);
    lemma_texts(d, subs, "kind"@, "entry"@);
    lemma_texts(d, subs, "kind"@, "do"@);
    lemma_texts(d, subs, "kind"@, "exit"@);
    lemma_parts(d, parts, "trigger"@, "AcceptActionUsage"@);
    lemma_parts(d, parts, "guard"@, "Expression"@);
    lemma_parts(d, parts, "effect"@, "ActionUsage"@);
    lemma_own(d, e, "entryAction"@);
    lemma_own(d, e, "doAction"@);
    lemma_own(d, e, "exitAction"@);
    lemma_own(d, e, "triggerAction"@);
    lemma_own(d, e, "guardExpression"@);
    lemma_own(d, e, "effectAction"@);
}

proof fn lemma_parts(d: DV, parts: Seq<usize>, kind: Seq<char>, general: Seq<char>)
    ensures
        d.of_kind(d.firsts(d.with_text(parts, "kind"@, kind)), general) == members_of(
            d,
            parts.filter(reads(d, "kind"@, kind)),
        ).filter(is_a(d, general)),
{
    lemma_texts(d, parts, "kind"@, kind);
    lemma_firsts(d, d.with_text(parts, "kind"@, kind));
    lemma_kinds(d, d.firsts(d.with_text(parts, "kind"@, kind)), general);
}

/// The subject, actors, stakeholders, objective, concerns and result of a case
/// or requirement are the members of its feature memberships of that kind, and
/// its required and assumed constraints those of the constraint memberships
/// that say so.
#[verifier::spinoff_prover]
#[verifier::rlimit(40)]
pub proof fn law_case_members_go_by_their_membership(d: DV, e: usize)
    ensures
        ({
            let via = |kind: Seq<char>|
                members_of(d, d.feature_memberships(e).filter(is_a(d, kind)));
            let rules = owned_as(d, e, "RequirementConstraintMembership"@);
            let ruled = |kind: Seq<char>|
                ValueOf::Elements(members_of(d, rules.filter(reads(d, "kind"@, kind))));
            &&& answered(d, e, "subjectParameter"@, first_of(via("SubjectMembership"@)))
            &&& answered(d, e, "actorParameter"@, ValueOf::Elements(via("ActorMembership"@)))
            &&& answered(
                d,
                e,
                "stakeholderParameter"@,
                ValueOf::Elements(via("StakeholderMembership"@)),
            )
            &&& answered(d, e, "objectiveRequirement"@, first_of(via("ObjectiveMembership"@)))
            &&& answered(d, e, "framedConcern"@, ValueOf::Elements(via("FramedConcernMembership"@)))
            &&& answered(d, e, "resultExpression"@, first_of(via("ResultExpressionMembership"@)))
            &&& answered(d, e, "requiredConstraint"@, ruled("requirement"@))
            &&& answered(d, e, "assumedConstraint"@, ruled("assumption"@))
            &&& answered(d, e, "exposedElement"@, ValueOf::Elements(d.exposed[e as int]))
        }),
{
    lemma_shapes();
    lemma_written_names();
    lemma_no_member_sides();
    reveal(DV::own_value);
    reveal(DV::closure_value);
    reveal(DV::connection_value);
    reveal(DV::ownership_value);
    reveal(DV::owners_value);
    reveal(DV::annotations_value);
    reveal(DV::behavior_value);
    reveal(DV::more_value);
    reveal(DV::references_value);
    reveal(DV::members_value);
    reveal(DV::cases_value);
    reveal(DV::member_via);
    reveal(DV::members_via);
    reveal(DV::requirement_constraints);
    lemma_via(d, e, "SubjectMembership"@);
    lemma_via(d, e, "ActorMembership"@);
    lemma_via(d, e, "StakeholderMembership"@);
    lemma_via(d, e, "ObjectiveMembership"@);
    lemma_via(d, e, "FramedConcernMembership"@);
    lemma_via(d, e, "ResultExpressionMembership"@);
    lemma_owned(d, e, "RequirementConstraintMembership"@);
    let rules = owned_as(d, e, "RequirementConstraintMembership"@);
    lemma_texts(d, rules, "kind"@, "requirement"@);
    lemma_texts(d, rules, "kind"@, "assumption"@);
    lemma_firsts(d, d.with_text(rules, "kind"@, "requirement"@));
    lemma_firsts(d, d.with_text(rules, "kind"@, "assumption"@));
    lemma_own(d, e, "subjectParameter"@);
    lemma_own(d, e, "actorParameter"@);
    lemma_own(d, e, "stakeholderParameter"@);
    lemma_own(d, e, "objectiveRequirement"@);
    lemma_own(d, e, "framedConcern"@);
    lemma_own(d, e, "resultExpression"@);
    lemma_own(d, e, "requiredConstraint"@);
    lemma_own(d, e, "assumedConstraint"@);
    lemma_own(d, e, "exposedElement"@);
}

proof fn lemma_via(d: DV, e: usize, kind: Seq<char>)
    ensures
        d.members_via(e, kind) == members_of(d, d.feature_memberships(e).filter(is_a(d, kind))),
{
    reveal(DV::members_via);
    lemma_kinds(d, d.feature_memberships(e), kind);
    lemma_firsts(d, d.of_kind(d.feature_memberships(e), kind));
}

/// The bounds of a multiplicity are the expressions among its members: the last
/// is the upper bound, and the first the lower one where there are two.
#[verifier::spinoff_prover]
#[verifier::rlimit(40)]
pub proof fn law_bounds_are_the_member_expressions(d: DV, e: usize)
    ensures
        ({
            let members = members_of(
                d,
                owned_as(d, e, "Membership"@).filter(is_a(d, "OwningMembership"@)),
            );
            let bounds = members.filter(is_a(d, "Expression"@));
            &&& answered(d, e, "bound"@, ValueOf::Elements(bounds))
            &&& answered(
                d,
                e,
                "upperBound"@,
                if bounds.len() > 0 {
                    ValueOf::Element(bounds[bounds.len() - 1])
                } else {
                    ValueOf::Null
                },
            )
            &&& answered(
                d,
                e,
                "lowerBound"@,
                if bounds.len() > 1 {
                    ValueOf::Element(bounds[0])
                } else {
                    ValueOf::Null
                },
            )
            &&& answered(d, e, "multiplicity"@, first_of(members.filter(is_a(d, "Multiplicity"@))))
            &&& answered(d, e, "succession"@, first_of(members.filter(is_a(d, "Succession"@))))
        }),
{
    lemma_shapes();
    lemma_written_names();
    lemma_no_member_sides();
    reveal(DV::own_value);
    reveal(DV::closure_value);
    reveal(DV::connection_value);
    reveal(DV::ownership_value);
    reveal(DV::owners_value);
    reveal(DV::annotations_value);
    reveal(DV::behavior_value);
    reveal(DV::more_value);
    reveal(DV::references_value);
    reveal(DV::members_value);
    reveal(DV::bounds);
    reveal(DV::lower_bound);
    reveal(DV::multiplicity);
    reveal(DV::succession);
    reveal(DV::owned_members);
    reveal(DV::owned_memberships);
    lemma_owned(d, e, "Membership"@);
    lemma_kinds(d, d.owned_memberships(e), "OwningMembership"@);
    lemma_firsts(d, d.of_kind(d.owned_memberships(e), "OwningMembership"@));
    lemma_kinds(d, d.owned_members(e), "Expression"@);
    lemma_kinds(d, d.owned_members(e), "Multiplicity"@);
    lemma_kinds(d, d.owned_members(e), "Succession"@);
    lemma_own(d, e, "bound"@);
    lemma_own(d, e, "upperBound"@);
    lemma_own(d, e, "lowerBound"@);
    lemma_own(d, e, "multiplicity"@);
    lemma_own(d, e, "succession"@);
}

/// The owning type of a feature is the type that holds its feature membership;
/// it is the owning definition where it is a definition, and the owning usage
/// where it is a usage.
#[verifier::spinoff_prover]
#[verifier::rlimit(40)]
pub proof fn law_features_belong_to_the_type_that_holds_them(d: DV, e: usize)
    requires
        is_a(d, "Feature"@)(e),
        !is_a(d, "FeatureMembership"@)(e),
    ensures
        ({
            let ty = match d.g.elements[e as int].owning {
                Some(r) => if is_a(d, "FeatureMembership"@)(r) {
                    holder(d, r)
                } else {
                    None
                },
                None => None,
            };
            let as_kind = |kind: Seq<char>|
                match ty {
                    Some(o) => if is_a(d, "Type"@)(o) && is_a(d, kind)(o) {
                        ValueOf::Element(o)
                    } else {
                        ValueOf::Null
                    },
                    None => ValueOf::Null,
                };
            &&& answered(d, e, "owningType"@, as_kind("Type"@))
            &&& answered(d, e, "owningDefinition"@, as_kind("Definition"@))
            &&& answered(d, e, "owningUsage"@, as_kind("Usage"@))
        }),
{
    lemma_shapes();
    lemma_written_names();
    lemma_no_member_sides();
    reveal(DV::own_value);
    reveal(DV::closure_value);
    reveal(DV::connection_value);
    reveal(DV::ownership_value);
    reveal(DV::owners_value);
    reveal(DV::owning_type_any);
    reveal(DV::owning_type);
    reveal(DV::owning_type_of_kind);
    reveal(DV::owning_feature_membership);
    reveal(DV::if_kind);
    lemma_own(d, e, "owningType"@);
    lemma_own(d, e, "owningDefinition"@);
    lemma_own(d, e, "owningUsage"@);
}

/// A membership's member is the element it owns, and what an import brings in
/// is what it names: the namespace, or else the membership's element.
#[verifier::spinoff_prover]
#[verifier::rlimit(40)]
pub proof fn law_members_are_what_the_membership_owns(d: DV, e: usize)
    ensures
        answered(
            d,
            e,
            "ownedMemberElement"@,
            first_of(d.g.elements[e as int].children),
        ),
{
    lemma_shapes();
    lemma_written_names();
    lemma_no_member_sides();
    reveal(DV::own_value);
    reveal(DV::closure_value);
    reveal(DV::connection_value);
    reveal(DV::ownership_value);
    reveal(DV::owners_value);
    reveal(DV::first_child);
    lemma_own(d, e, "ownedMemberElement"@);
}

/// The ends of an association give it its related types, of which the first is
/// the source type; the function of an element is the first of its types that is
/// one.
#[verifier::spinoff_prover]
#[verifier::rlimit(40)]
pub proof fn law_related_types_run_from_the_first(d: DV, e: usize)
    ensures
        ({
            let rs = d.related_types(e);
            &&& answered(d, e, "relatedType"@, ValueOf::References(rs))
            &&& answered(
                d,
                e,
                "sourceType"@,
                first_ref(rs),
            )
            &&& answered(
                d,
                e,
                "function"@,
                first_ref(d.cast_all(d.types(e), "Function"@)),
            )
            &&& answered(d, e, "type"@, ValueOf::References(d.types(e)))
        }),
{
    lemma_shapes();
    lemma_written_names();
    lemma_no_member_sides();
    reveal(DV::own_value);
    reveal(DV::closure_value);
    reveal(DV::connection_value);
    reveal(DV::ownership_value);
    reveal(DV::owners_value);
    reveal(DV::annotations_value);
    reveal(DV::behavior_value);
    reveal(DV::more_value);
    reveal(DV::references_value);
    reveal(DV::members_value);
    reveal(DV::cases_value);
    reveal(DV::types_value);
    lemma_own(d, e, "relatedType"@);
    lemma_own(d, e, "sourceType"@);
    lemma_own(d, e, "function"@);
    lemma_own(d, e, "type"@);
}

/// What some relationships name under a key, in order; those that name nothing
/// are left out.
pub open spec fn named_by(d: DV, rels: Seq<usize>, key: Seq<char>) -> Seq<RefV> {
    rels.filter(|r: usize| link_prop(d.g.elements[r as int].props, key) is Some).map_values(
        |r: usize| d.reference(link_prop(d.g.elements[r as int].props, key)->0),
    )
}

proof fn lemma_links_from(d: DV, s: Seq<usize>, key: Seq<char>, k: int)
    requires
        0 <= k <= s.len(),
    ensures
        d.links_from(s, key, k) == named_by(d, s.skip(k), key),
    decreases s.len() - k,
{
    let p = |r: usize| link_prop(d.g.elements[r as int].props, key) is Some;
    let f = |r: usize| d.reference(link_prop(d.g.elements[r as int].props, key)->0);
    reveal(DV::link);
    assert(named_by(d, s.skip(k), key) == s.skip(k).filter(p).map_values(f));
    if k < s.len() {
        lemma_links_from(d, s, key, k + 1);
        lemma_filter_front(s, p, k);
        let rest = s.skip(k + 1).filter(p);
        if p(s[k]) {
            assert((seq![s[k]] + rest).map_values(f) =~= seq![f(s[k])] + rest.map_values(f));
        }
    } else {
        lemma_filter_end(s, p, k);
        assert(Seq::<usize>::empty().map_values(f) =~= Seq::<RefV>::empty());
    }
}

proof fn lemma_operation(d: DV, e: usize, kind: Seq<char>, key: Seq<char>)
    ensures
        d.operation_types(e, kind, key) == named_by(d, owned_as(d, e, kind), key),
{
    reveal(DV::operation_types);
    reveal(DV::links);
    lemma_owned(d, e, kind);
    let s = owned_as(d, e, kind);
    lemma_links_from(d, s, key, 0);
    assert(s.skip(0) =~= s);
}

/// The types that an element unites, intersects or differs from are what its
/// relationships of that kind name, in order.
#[verifier::spinoff_prover]
#[verifier::rlimit(40)]
pub proof fn law_type_operations_name_their_types(d: DV, e: usize)
    ensures
        answered(
            d,
            e,
            "unioningType"@,
            ValueOf::References(named_by(d, owned_as(d, e, "Unioning"@), "unioningType"@)),
        ),
        answered(
            d,
            e,
            "intersectingType"@,
            ValueOf::References(named_by(d, owned_as(d, e, "Intersecting"@), "intersectingType"@)),
        ),
        answered(
            d,
            e,
            "differencingType"@,
            ValueOf::References(named_by(d, owned_as(d, e, "Differencing"@), "differencingType"@)),
        ),
{
    lemma_shapes();
    lemma_written_names();
    lemma_no_member_sides();
    reveal(DV::own_value);
    reveal(DV::closure_value);
    reveal(DV::connection_value);
    reveal(DV::ownership_value);
    reveal(DV::owners_value);
    reveal(DV::annotations_value);
    reveal(DV::behavior_value);
    reveal(DV::more_value);
    reveal(DV::references_value);
    reveal(DV::members_value);
    reveal(DV::cases_value);
    reveal(DV::types_value);
    lemma_operation(d, e, "Unioning"@, "unioningType"@);
    lemma_operation(d, e, "Intersecting"@, "intersectingType"@);
    lemma_operation(d, e, "Differencing"@, "differencingType"@);
    lemma_own(d, e, "unioningType"@);
    lemma_own(d, e, "intersectingType"@);
    lemma_own(d, e, "differencingType"@);
}

} // verus!
