//! The names of the derived properties that are computed: which of them as
//! specified, which on the owned side only, and which on some kinds only.
use vstd::prelude::*;

verus! {

pub open spec fn names_view(v: Seq<&'static str>) -> Seq<Seq<char>> {
    Seq::new(v.len(), |i: int| v[i]@)
}

fn join(a: Vec<&'static str>, b: Vec<&'static str>) -> (r: Vec<&'static str>)
    ensures
        names_view(r@) == names_view(a@) + names_view(b@),
{
    let mut r: Vec<&'static str> = a;
    let n: usize = b.len();
    let mut i: usize = 0;
    while i < n
        invariant
            n == b@.len(),
            i <= n,
            r@ == a@ + b@.take(i as int),
        decreases n - i,
    {
        r.push(b[i]);
        assert(b@.take(i + 1) =~= b@.take(i as int).push(b@[i as int]));
        i += 1;
    }
    assert(b@.take(n as int) =~= b@);
    assert(names_view(r@) =~= names_view(a@) + names_view(b@));
    r
}

#[verifier::opaque]
pub open spec fn exact_names_0() -> Seq<Seq<char>> {
    seq![
        "annotatedElement"@,
        "annotatingElement"@,
        "annotation"@,
        "assertedConstraint"@,
        "association"@,
        "assumedConstraint"@,
        "bodyAction"@,
        "bound"@,
        "chainingFeature"@,
        "conjugatedPortDefinition"@,
        "crossFeature"@,
        "crossingFeature"@,
        "definition"@,
        "differencingType"@,
        "doAction"@,
        "documentedElement"@,
        "effectAction"@,
        "elseAction"@,
        "endOwningType"@,
        "entryAction"@,
    ]
}

fn list_exact_names_0() -> (r: Vec<&'static str>)
    ensures
        names_view(r@) == exact_names_0(),
{
    reveal(exact_names_0);
    let r: Vec<&'static str> = vec![
        "annotatedElement",
        "annotatingElement",
        "annotation",
        "assertedConstraint",
        "association",
        "assumedConstraint",
        "bodyAction",
        "bound",
        "chainingFeature",
        "conjugatedPortDefinition",
        "crossFeature",
        "crossingFeature",
        "definition",
        "differencingType",
        "doAction",
        "documentedElement",
        "effectAction",
        "elseAction",
        "endOwningType",
        "entryAction",
    ];
    assert(names_view(r@) =~= exact_names_0());
    r
}

#[verifier::opaque]
pub open spec fn exact_names_1() -> Seq<Seq<char>> {
    seq![
        "enumeratedValue"@,
        "eventOccurrence"@,
        "exhibitedState"@,
        "exitAction"@,
        "featureChained"@,
        "featureTarget"@,
        "featureWithValue"@,
        "filterCondition"@,
        "function"@,
        "guardExpression"@,
        "ifArgument"@,
        "importOwningNamespace"@,
        "importedElement"@,
        "includedUseCase"@,
        "individualDefinition"@,
        "instantiatedType"@,
        "interaction"@,
        "intersectingType"@,
        "isConjugated"@,
        "isLibraryElement"@,
    ]
}

fn list_exact_names_1() -> (r: Vec<&'static str>)
    ensures
        names_view(r@) == exact_names_1(),
{
    reveal(exact_names_1);
    let r: Vec<&'static str> = vec![
        "enumeratedValue",
        "eventOccurrence",
        "exhibitedState",
        "exitAction",
        "featureChained",
        "featureTarget",
        "featureWithValue",
        "filterCondition",
        "function",
        "guardExpression",
        "ifArgument",
        "importOwningNamespace",
        "importedElement",
        "includedUseCase",
        "individualDefinition",
        "instantiatedType",
        "interaction",
        "intersectingType",
        "isConjugated",
        "isLibraryElement",
    ];
    assert(names_view(r@) =~= exact_names_1());
    r
}

#[verifier::opaque]
pub open spec fn exact_names_2() -> Seq<Seq<char>> {
    seq![
        "isReference"@,
        "loopVariable"@,
        "lowerBound"@,
        "memberElementId"@,
        "membershipOwningNamespace"@,
        "metaclass"@,
        "multiplicity"@,
        "name"@,
        "originalPortDefinition"@,
        "ownedAnnotatingElement"@,
        "ownedAnnotatingRelationship"@,
        "ownedAnnotation"@,
        "ownedConjugator"@,
        "ownedCrossSubsetting"@,
        "ownedElement"@,
        "ownedEndFeature"@,
        "ownedFeature"@,
        "ownedFeatureInverting"@,
        "ownedFeatureMembership"@,
        "ownedImport"@,
    ]
}

fn list_exact_names_2() -> (r: Vec<&'static str>)
    ensures
        names_view(r@) == exact_names_2(),
{
    reveal(exact_names_2);
    let r: Vec<&'static str> = vec![
        "isReference",
        "loopVariable",
        "lowerBound",
        "memberElementId",
        "membershipOwningNamespace",
        "metaclass",
        "multiplicity",
        "name",
        "originalPortDefinition",
        "ownedAnnotatingElement",
        "ownedAnnotatingRelationship",
        "ownedAnnotation",
        "ownedConjugator",
        "ownedCrossSubsetting",
        "ownedElement",
        "ownedEndFeature",
        "ownedFeature",
        "ownedFeatureInverting",
        "ownedFeatureMembership",
        "ownedImport",
    ];
    assert(names_view(r@) =~= exact_names_2());
    r
}

#[verifier::opaque]
pub open spec fn exact_names_3() -> Seq<Seq<char>> {
    seq![
        "ownedMember"@,
        "ownedMemberElement"@,
        "ownedMemberElementId"@,
        "ownedMemberFeature"@,
        "ownedMemberName"@,
        "ownedMemberShortName"@,
        "ownedMembership"@,
        "ownedPortConjugator"@,
        "ownedReferenceSubsetting"@,
        "ownedSpecialization"@,
        "ownedTypeFeaturing"@,
        "owner"@,
        "owningAnnotatedElement"@,
        "owningAnnotatingElement"@,
        "owningAnnotatingRelationship"@,
        "owningClassifier"@,
        "owningDefinition"@,
        "owningFeature"@,
        "owningFeatureMembership"@,
        "owningFeatureOfType"@,
    ]
}

fn list_exact_names_3() -> (r: Vec<&'static str>)
    ensures
        names_view(r@) == exact_names_3(),
{
    reveal(exact_names_3);
    let r: Vec<&'static str> = vec![
        "ownedMember",
        "ownedMemberElement",
        "ownedMemberElementId",
        "ownedMemberFeature",
        "ownedMemberName",
        "ownedMemberShortName",
        "ownedMembership",
        "ownedPortConjugator",
        "ownedReferenceSubsetting",
        "ownedSpecialization",
        "ownedTypeFeaturing",
        "owner",
        "owningAnnotatedElement",
        "owningAnnotatingElement",
        "owningAnnotatingRelationship",
        "owningClassifier",
        "owningDefinition",
        "owningFeature",
        "owningFeatureMembership",
        "owningFeatureOfType",
    ];
    assert(names_view(r@) =~= exact_names_3());
    r
}

#[verifier::opaque]
pub open spec fn exact_names_4() -> Seq<Seq<char>> {
    seq![
        "owningMembership"@,
        "owningNamespace"@,
        "owningType"@,
        "owningUsage"@,
        "payloadArgument"@,
        "payloadFeature"@,
        "payloadType"@,
        "performedAction"@,
        "predicate"@,
        "qualifiedName"@,
        "receiverArgument"@,
        "referencedConcern"@,
        "referencedConstraint"@,
        "referencedElement"@,
        "referencedRendering"@,
        "referencingFeature"@,
        "referent"@,
        "relatedElement"@,
        "representedElement"@,
        "requiredConstraint"@,
    ]
}

fn list_exact_names_4() -> (r: Vec<&'static str>)
    ensures
        names_view(r@) == exact_names_4(),
{
    reveal(exact_names_4);
    let r: Vec<&'static str> = vec![
        "owningMembership",
        "owningNamespace",
        "owningType",
        "owningUsage",
        "payloadArgument",
        "payloadFeature",
        "payloadType",
        "performedAction",
        "predicate",
        "qualifiedName",
        "receiverArgument",
        "referencedConcern",
        "referencedConstraint",
        "referencedElement",
        "referencedRendering",
        "referencingFeature",
        "referent",
        "relatedElement",
        "representedElement",
        "requiredConstraint",
    ];
    assert(names_view(r@) =~= exact_names_4());
    r
}

#[verifier::opaque]
pub open spec fn exact_names_5() -> Seq<Seq<char>> {
    seq![
        "satisfiedRequirement"@,
        "satisfiedViewpoint"@,
        "senderArgument"@,
        "seqArgument"@,
        "shortName"@,
        "source"@,
        "succession"@,
        "target"@,
        "targetArgument"@,
        "terminatedOccurrenceArgument"@,
        "text"@,
        "thenAction"@,
        "triggerAction"@,
        "type"@,
        "typeDifferenced"@,
        "typeIntersected"@,
        "typeUnioned"@,
        "unioningType"@,
        "untilArgument"@,
        "upperBound"@,
    ]
}

fn list_exact_names_5() -> (r: Vec<&'static str>)
    ensures
        names_view(r@) == exact_names_5(),
{
    reveal(exact_names_5);
    let r: Vec<&'static str> = vec![
        "satisfiedRequirement",
        "satisfiedViewpoint",
        "senderArgument",
        "seqArgument",
        "shortName",
        "source",
        "succession",
        "target",
        "targetArgument",
        "terminatedOccurrenceArgument",
        "text",
        "thenAction",
        "triggerAction",
        "type",
        "typeDifferenced",
        "typeIntersected",
        "typeUnioned",
        "unioningType",
        "untilArgument",
        "upperBound",
    ];
    assert(names_view(r@) =~= exact_names_5());
    r
}

#[verifier::opaque]
pub open spec fn exact_names_6() -> Seq<Seq<char>> {
    seq![
        "useCaseIncluded"@,
        "valueExpression"@,
        "variant"@,
        "viewCondition"@,
        "whileArgument"@,
    ]
}

fn list_exact_names_6() -> (r: Vec<&'static str>)
    ensures
        names_view(r@) == exact_names_6(),
{
    reveal(exact_names_6);
    let r: Vec<&'static str> = vec![
        "useCaseIncluded",
        "valueExpression",
        "variant",
        "viewCondition",
        "whileArgument",
    ];
    assert(names_view(r@) =~= exact_names_6());
    r
}

/// The names computed as specified, in order.
pub open spec fn exact_names() -> Seq<Seq<char>> {
    exact_names_0() + exact_names_1() + exact_names_2() + exact_names_3() + exact_names_4() + exact_names_5() + exact_names_6()
}

/// The names computed as specified, in order.
pub fn exact_names_list() -> (r: Vec<&'static str>)
    ensures
        names_view(r@) == exact_names(),
{
    join(
        join(
            join(
                join(
                    join(join(list_exact_names_0(), list_exact_names_1()), list_exact_names_2()),
                    list_exact_names_3(),
                ),
                list_exact_names_4(),
            ),
            list_exact_names_5(),
        ),
        list_exact_names_6(),
    )
}

#[verifier::opaque]
pub open spec fn passthrough_names_0() -> Seq<Seq<char>> {
    seq![
        "actorParameter"@,
        "argument"@,
        "associationEnd"@,
        "connectionEnd"@,
        "connectorEnd"@,
        "defaultFeaturingType"@,
        "directedFeature"@,
        "endFeature"@,
        "exposedElement"@,
        "expression"@,
        "feature"@,
        "featureMembership"@,
        "featuringType"@,
        "framedConcern"@,
        "importedMembership"@,
        "inheritedFeature"@,
        "inheritedMembership"@,
        "input"@,
        "interfaceEnd"@,
        "isModelLevelEvaluable"@,
    ]
}

fn list_passthrough_names_0() -> (r: Vec<&'static str>)
    ensures
        names_view(r@) == passthrough_names_0(),
{
    reveal(passthrough_names_0);
    let r: Vec<&'static str> = vec![
        "actorParameter",
        "argument",
        "associationEnd",
        "connectionEnd",
        "connectorEnd",
        "defaultFeaturingType",
        "directedFeature",
        "endFeature",
        "exposedElement",
        "expression",
        "feature",
        "featureMembership",
        "featuringType",
        "framedConcern",
        "importedMembership",
        "inheritedFeature",
        "inheritedMembership",
        "input",
        "interfaceEnd",
        "isModelLevelEvaluable",
    ];
    assert(names_view(r@) =~= passthrough_names_0());
    r
}

#[verifier::opaque]
pub open spec fn passthrough_names_1() -> Seq<Seq<char>> {
    seq![
        "member"@,
        "membership"@,
        "objectiveRequirement"@,
        "output"@,
        "parameter"@,
        "payloadParameter"@,
        "relatedFeature"@,
        "relatedType"@,
        "result"@,
        "resultExpression"@,
        "satisfyingFeature"@,
        "sourceFeature"@,
        "sourceOutputFeature"@,
        "sourceType"@,
        "stakeholderParameter"@,
        "subjectParameter"@,
        "targetFeature"@,
        "targetInputFeature"@,
        "targetType"@,
        "verifiedRequirement"@,
    ]
}

fn list_passthrough_names_1() -> (r: Vec<&'static str>)
    ensures
        names_view(r@) == passthrough_names_1(),
{
    reveal(passthrough_names_1);
    let r: Vec<&'static str> = vec![
        "member",
        "membership",
        "objectiveRequirement",
        "output",
        "parameter",
        "payloadParameter",
        "relatedFeature",
        "relatedType",
        "result",
        "resultExpression",
        "satisfyingFeature",
        "sourceFeature",
        "sourceOutputFeature",
        "sourceType",
        "stakeholderParameter",
        "subjectParameter",
        "targetFeature",
        "targetInputFeature",
        "targetType",
        "verifiedRequirement",
    ];
    assert(names_view(r@) =~= passthrough_names_1());
    r
}

#[verifier::opaque]
pub open spec fn passthrough_names_2() -> Seq<Seq<char>> {
    seq![
        "viewRendering"@,
        "viewpointStakeholder"@,
    ]
}

fn list_passthrough_names_2() -> (r: Vec<&'static str>)
    ensures
        names_view(r@) == passthrough_names_2(),
{
    reveal(passthrough_names_2);
    let r: Vec<&'static str> = vec![
        "viewRendering",
        "viewpointStakeholder",
    ];
    assert(names_view(r@) =~= passthrough_names_2());
    r
}

/// The names computed on the owned side only, in order: their specification
/// also reads the inheritance and import closures.
pub open spec fn passthrough_names() -> Seq<Seq<char>> {
    passthrough_names_0() + passthrough_names_1() + passthrough_names_2()
}

/// The names computed on the owned side only, in order: their specification
/// also reads the inheritance and import closures.
pub fn passthrough_names_list() -> (r: Vec<&'static str>)
    ensures
        names_view(r@) == passthrough_names(),
{
    join(join(list_passthrough_names_0(), list_passthrough_names_1()), list_passthrough_names_2())
}

#[verifier::opaque]
pub open spec fn approximate_names_0() -> Seq<Seq<char>> {
    seq![
        "defaultFeaturingType"@,
        "exposedElement"@,
        "isModelLevelEvaluable"@,
    ]
}

fn list_approximate_names_0() -> (r: Vec<&'static str>)
    ensures
        names_view(r@) == approximate_names_0(),
{
    reveal(approximate_names_0);
    let r: Vec<&'static str> = vec![
        "defaultFeaturingType",
        "exposedElement",
        "isModelLevelEvaluable",
    ];
    assert(names_view(r@) =~= approximate_names_0());
    r
}

/// The owned-side names that no closure policy makes exact.
pub open spec fn approximate_names() -> Seq<Seq<char>> {
    approximate_names_0()
}

/// The owned-side names that no closure policy makes exact.
pub fn approximate_names_list() -> (r: Vec<&'static str>)
    ensures
        names_view(r@) == approximate_names(),
{
    list_approximate_names_0()
}

#[verifier::opaque]
pub open spec fn member_side_names_0() -> Seq<Seq<char>> {
    seq![
        "action"@,
        "condition"@,
        "ownedActorParameter"@,
        "ownedConcern"@,
        "ownedConstraint"@,
        "ownedMemberParameter"@,
        "ownedObjectiveRequirement"@,
        "ownedRendering"@,
        "ownedRequirement"@,
        "ownedResultExpression"@,
        "ownedStakeholderParameter"@,
        "ownedSubjectParameter"@,
        "ownedVariantUsage"@,
        "transitionFeature"@,
        "value"@,
    ]
}

fn list_member_side_names_0() -> (r: Vec<&'static str>)
    ensures
        names_view(r@) == member_side_names_0(),
{
    reveal(member_side_names_0);
    let r: Vec<&'static str> = vec![
        "action",
        "condition",
        "ownedActorParameter",
        "ownedConcern",
        "ownedConstraint",
        "ownedMemberParameter",
        "ownedObjectiveRequirement",
        "ownedRendering",
        "ownedRequirement",
        "ownedResultExpression",
        "ownedStakeholderParameter",
        "ownedSubjectParameter",
        "ownedVariantUsage",
        "transitionFeature",
        "value",
    ];
    assert(names_view(r@) =~= member_side_names_0());
    r
}

/// The names that stand for the owned member on a membership of some kind.
pub open spec fn member_side_names() -> Seq<Seq<char>> {
    member_side_names_0()
}

/// The names that stand for the owned member on a membership of some kind.
pub fn member_side_names_list() -> (r: Vec<&'static str>)
    ensures
        names_view(r@) == member_side_names(),
{
    list_member_side_names_0()
}

#[verifier::opaque]
pub open spec fn member_side_kinds_0() -> Seq<Seq<char>> {
    seq![
        "StateSubactionMembership"@,
        "ElementFilterMembership"@,
        "ActorMembership"@,
        "FramedConcernMembership"@,
        "RequirementConstraintMembership"@,
        "ParameterMembership"@,
        "ObjectiveMembership"@,
        "ViewRenderingMembership"@,
        "RequirementVerificationMembership"@,
        "ResultExpressionMembership"@,
        "StakeholderMembership"@,
        "SubjectMembership"@,
        "VariantMembership"@,
        "TransitionFeatureMembership"@,
        "FeatureValue"@,
    ]
}

fn list_member_side_kinds_0() -> (r: Vec<&'static str>)
    ensures
        names_view(r@) == member_side_kinds_0(),
{
    reveal(member_side_kinds_0);
    let r: Vec<&'static str> = vec![
        "StateSubactionMembership",
        "ElementFilterMembership",
        "ActorMembership",
        "FramedConcernMembership",
        "RequirementConstraintMembership",
        "ParameterMembership",
        "ObjectiveMembership",
        "ViewRenderingMembership",
        "RequirementVerificationMembership",
        "ResultExpressionMembership",
        "StakeholderMembership",
        "SubjectMembership",
        "VariantMembership",
        "TransitionFeatureMembership",
        "FeatureValue",
    ];
    assert(names_view(r@) =~= member_side_kinds_0());
    r
}

/// The membership kind of each of [`member_side_names`].
pub open spec fn member_side_kinds() -> Seq<Seq<char>> {
    member_side_kinds_0()
}

/// The membership kind of each of [`member_side_names`].
pub fn member_side_kinds_list() -> (r: Vec<&'static str>)
    ensures
        names_view(r@) == member_side_kinds(),
{
    list_member_side_kinds_0()
}

#[verifier::opaque]
pub open spec fn gated_names_0() -> Seq<Seq<char>> {
    seq![
        "targetFeature"@,
        "targetFeature"@,
        "verifiedRequirement"@,
        "verifiedRequirement"@,
        "verifiedRequirement"@,
    ]
}

fn list_gated_names_0() -> (r: Vec<&'static str>)
    ensures
        names_view(r@) == gated_names_0(),
{
    reveal(gated_names_0);
    let r: Vec<&'static str> = vec![
        "targetFeature",
        "targetFeature",
        "verifiedRequirement",
        "verifiedRequirement",
        "verifiedRequirement",
    ];
    assert(names_view(r@) =~= gated_names_0());
    r
}

/// The computed names that are a different property on other kinds.
pub open spec fn gated_names() -> Seq<Seq<char>> {
    gated_names_0()
}

/// The computed names that are a different property on other kinds.
pub fn gated_names_list() -> (r: Vec<&'static str>)
    ensures
        names_view(r@) == gated_names(),
{
    list_gated_names_0()
}

#[verifier::opaque]
pub open spec fn gated_kinds_0() -> Seq<Seq<char>> {
    seq![
        "Connector"@,
        "FeatureChainExpression"@,
        "RequirementVerificationMembership"@,
        "VerificationCaseUsage"@,
        "VerificationCaseDefinition"@,
    ]
}

fn list_gated_kinds_0() -> (r: Vec<&'static str>)
    ensures
        names_view(r@) == gated_kinds_0(),
{
    reveal(gated_kinds_0);
    let r: Vec<&'static str> = vec![
        "Connector",
        "FeatureChainExpression",
        "RequirementVerificationMembership",
        "VerificationCaseUsage",
        "VerificationCaseDefinition",
    ];
    assert(names_view(r@) =~= gated_kinds_0());
    r
}

/// The kind on which each of [`gated_names`] is computed.
pub open spec fn gated_kinds() -> Seq<Seq<char>> {
    gated_kinds_0()
}

/// The kind on which each of [`gated_names`] is computed.
pub fn gated_kinds_list() -> (r: Vec<&'static str>)
    ensures
        names_view(r@) == gated_kinds(),
{
    list_gated_kinds_0()
}

/// Whether a name stands in a list.
pub open spec fn listed(names: Seq<Seq<char>>, name: Seq<char>) -> bool {
    exists|i: int| 0 <= i < names.len() && #[trigger] names[i] == name
}

pub fn is_listed(names: &Vec<&'static str>, name: &str) -> (r: bool)
    ensures
        r == listed(names_view(names@), name@),
{
    let n: usize = names.len();
    let mut i: usize = 0;
    while i < n
        invariant
            n == names@.len(),
            i <= n,
            forall|j: int| 0 <= j < i ==> #[trigger] names_view(names@)[j] != name@,
        decreases n - i,
    {
        if crate::text::str_eq(names[i], name) {
            assert(names_view(names@)[i as int] == name@);
            return true;
        }
        i += 1;
    }
    false
}

pub fn is_exact(name: &str) -> (r: bool)
    ensures
        r == listed(exact_names(), name@),
{
    is_listed(&exact_names_list(), name)
}

pub fn is_passthrough(name: &str) -> (r: bool)
    ensures
        r == listed(passthrough_names(), name@),
{
    is_listed(&passthrough_names_list(), name)
}

/// A name with a computation of its own.
pub open spec fn hand_written(name: Seq<char>) -> bool {
    listed(exact_names(), name) || listed(passthrough_names(), name)
}

pub fn is_hand_written(name: &str) -> (r: bool)
    ensures
        r == hand_written(name@),
{
    is_exact(name) || is_passthrough(name)
}

/// The names of what relationships and connectors relate are computed.
pub proof fn lemma_connection_names()
    ensures
        hand_written("relatedElement"@),
        hand_written("relatedFeature"@),
        hand_written("sourceFeature"@),
        hand_written("targetFeature"@),
        "relatedElement"@ != "relatedFeature"@,
        "relatedElement"@ != "sourceFeature"@,
        "relatedElement"@ != "targetFeature"@,
        "relatedFeature"@ != "sourceFeature"@,
        "relatedFeature"@ != "targetFeature"@,
        "sourceFeature"@ != "targetFeature"@,
{
    reveal(exact_names_0);
    reveal(exact_names_1);
    reveal(exact_names_2);
    reveal(exact_names_3);
    reveal(exact_names_4);
    reveal(passthrough_names_0);
    reveal(passthrough_names_1);
    assert(exact_names_4()[17] == "relatedElement"@);
    assert(exact_names()[97] == "relatedElement"@);
    assert(passthrough_names()[26] == passthrough_names_1()[6]);
    assert(passthrough_names()[31] == passthrough_names_1()[11]);
    assert(passthrough_names()[36] == passthrough_names_1()[16]);
    reveal_strlit("relatedElement");
    reveal_strlit("relatedFeature");
    reveal_strlit("sourceFeature");
    reveal_strlit("targetFeature");
    assert("relatedElement"@[7] != "relatedFeature"@[7]);
    assert("sourceFeature"@[0] != "targetFeature"@[0]);
}

/// The names of what relationships and connectors relate are no member-side
/// names.
pub proof fn lemma_connection_names_are_unlisted()
    ensures
        !listed(member_side_names(), "relatedElement"@),
        !listed(member_side_names(), "relatedFeature"@),
        !listed(member_side_names(), "sourceFeature"@),
        !listed(member_side_names(), "targetFeature"@),
{
    reveal(member_side_names_0);
    reveal_strlit("action");
    reveal_strlit("condition");
    reveal_strlit("ownedActorParameter");
    reveal_strlit("ownedConcern");
    reveal_strlit("ownedConstraint");
    reveal_strlit("ownedMemberParameter");
    reveal_strlit("ownedObjectiveRequirement");
    reveal_strlit("ownedRendering");
    reveal_strlit("ownedRequirement");
    reveal_strlit("ownedResultExpression");
    reveal_strlit("ownedStakeholderParameter");
    reveal_strlit("ownedSubjectParameter");
    reveal_strlit("ownedVariantUsage");
    reveal_strlit("transitionFeature");
    reveal_strlit("value");
    reveal_strlit("relatedElement");
    reveal_strlit("relatedFeature");
    reveal_strlit("sourceFeature");
    reveal_strlit("targetFeature");
    assert("ownedRendering"@[0] != "relatedElement"@[0]);
    assert("ownedRendering"@[0] != "relatedFeature"@[0]);
    let names = member_side_names();
    assert(names.len() == 15);
    assert forall|i: int| 0 <= i < names.len() implies (#[trigger] names[i]).len() != 13 by {
        assert(names[0].len() == 6);
        assert(names[1].len() == 9);
        assert(names[2].len() == 19);
        assert(names[3].len() == 12);
        assert(names[4].len() == 15);
        assert(names[5].len() == 20);
        assert(names[6].len() == 25);
        assert(names[7].len() == 14);
        assert(names[8].len() == 16);
        assert(names[9].len() == 21);
        assert(names[10].len() == 25);
        assert(names[11].len() == 21);
        assert(names[12].len() == 17);
        assert(names[13].len() == 17);
        assert(names[14].len() == 5);
    }
    assert("sourceFeature"@.len() == 13 && "targetFeature"@.len() == 13);
}

/// The names of what elements inherit and import are computed, and are not
/// those of what relationships and connectors relate.
pub proof fn lemma_closure_names()
    ensures
        hand_written("inheritedMembership"@),
        hand_written("inheritedFeature"@),
        hand_written("importedMembership"@),
        "inheritedMembership"@.len() == 19,
        "inheritedFeature"@.len() == 16,
        "importedMembership"@.len() == 18,
        "relatedElement"@.len() == 14,
        "relatedFeature"@.len() == 14,
        "sourceFeature"@.len() == 13,
        "targetFeature"@.len() == 13,
{
    reveal(passthrough_names_0);
    assert(passthrough_names()[14] == passthrough_names_0()[14]);
    assert(passthrough_names()[15] == passthrough_names_0()[15]);
    assert(passthrough_names()[16] == passthrough_names_0()[16]);
    reveal_strlit("inheritedMembership");
    reveal_strlit("inheritedFeature");
    reveal_strlit("importedMembership");
    reveal_strlit("relatedElement");
    reveal_strlit("relatedFeature");
    reveal_strlit("sourceFeature");
    reveal_strlit("targetFeature");
}

/// The names of what elements inherit and import are no member-side names.
pub proof fn lemma_closure_names_are_unlisted()
    ensures
        !listed(member_side_names(), "inheritedMembership"@),
        !listed(member_side_names(), "inheritedFeature"@),
        !listed(member_side_names(), "importedMembership"@),
{
    reveal(member_side_names_0);
    reveal_strlit("action");
    reveal_strlit("condition");
    reveal_strlit("ownedActorParameter");
    reveal_strlit("ownedConcern");
    reveal_strlit("ownedConstraint");
    reveal_strlit("ownedMemberParameter");
    reveal_strlit("ownedObjectiveRequirement");
    reveal_strlit("ownedRendering");
    reveal_strlit("ownedRequirement");
    reveal_strlit("ownedResultExpression");
    reveal_strlit("ownedStakeholderParameter");
    reveal_strlit("ownedSubjectParameter");
    reveal_strlit("ownedVariantUsage");
    reveal_strlit("transitionFeature");
    reveal_strlit("value");
    reveal_strlit("inheritedMembership");
    reveal_strlit("inheritedFeature");
    reveal_strlit("importedMembership");
    let names = member_side_names();
    assert(names.len() == 15);
    assert forall|i: int| 0 <= i < names.len() implies (#[trigger] names[i])[0] != 'i' by {
        assert(names[0][0] == 'a');
        assert(names[1][0] == 'c');
        assert(names[2][0] == 'o');
        assert(names[3][0] == 'o');
        assert(names[4][0] == 'o');
        assert(names[5][0] == 'o');
        assert(names[6][0] == 'o');
        assert(names[7][0] == 'o');
        assert(names[8][0] == 'o');
        assert(names[9][0] == 'o');
        assert(names[10][0] == 'o');
        assert(names[11][0] == 'o');
        assert(names[12][0] == 'o');
        assert(names[13][0] == 't');
        assert(names[14][0] == 'v');
    }
    assert("inheritedMembership"@[0] == 'i');
    assert("inheritedFeature"@[0] == 'i');
    assert("importedMembership"@[0] == 'i');
}

/// These names are the same property on every metaclass.
pub proof fn lemma_ungated_names()
    ensures
        !listed(gated_names(), "relatedElement"@),
        !listed(gated_names(), "relatedFeature"@),
        !listed(gated_names(), "sourceFeature"@),
        !listed(gated_names(), "inheritedMembership"@),
        !listed(gated_names(), "inheritedFeature"@),
        !listed(gated_names(), "importedMembership"@),
{
    reveal(gated_names_0);
    reveal_strlit("targetFeature");
    reveal_strlit("verifiedRequirement");
    reveal_strlit("relatedElement");
    reveal_strlit("relatedFeature");
    reveal_strlit("sourceFeature");
    reveal_strlit("inheritedMembership");
    reveal_strlit("inheritedFeature");
    reveal_strlit("importedMembership");
    let names = gated_names();
    assert(names.len() == 5);
    assert forall|i: int| 0 <= i < names.len() implies (#[trigger] names[i])[0] == 't'
        || names[i][0] == 'v' by {
        assert(names[0][0] == 't');
        assert(names[1][0] == 't');
        assert(names[2][0] == 'v');
        assert(names[3][0] == 'v');
        assert(names[4][0] == 'v');
    }
    assert("relatedElement"@[0] == 'r');
    assert("relatedFeature"@[0] == 'r');
    assert("sourceFeature"@[0] == 's');
    assert("inheritedMembership"@[0] == 'i');
    assert("inheritedFeature"@[0] == 'i');
    assert("importedMembership"@[0] == 'i');
}

/// A gated name has a computation of its own.
pub proof fn lemma_gated_names_are_written(name: Seq<char>)
    requires
        listed(gated_names(), name),
    ensures
        hand_written(name),
{
    reveal(gated_names_0);
    reveal(passthrough_names_0);
    reveal(passthrough_names_1);
    assert(passthrough_names()[36] == passthrough_names_1()[16]);
    assert(passthrough_names()[39] == passthrough_names_1()[19]);
    let i = choose|i: int| 0 <= i < gated_names().len() && #[trigger] gated_names()[i] == name;
    assert(gated_names()[i] == "targetFeature"@ || gated_names()[i] == "verifiedRequirement"@);
}

} // verus!
