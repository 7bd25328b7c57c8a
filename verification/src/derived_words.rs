//! The names of the computed properties, told apart by their shape.
use crate::derived_table::{
    exact_names, exact_names_0, exact_names_1, exact_names_2, exact_names_3, exact_names_4,
    exact_names_5, exact_names_6, hand_written, listed, member_side_names, member_side_names_0, passthrough_names,
    passthrough_names_0, passthrough_names_1, passthrough_names_2,
};
use vstd::prelude::*;

verus! {

/// The length of a name, with its second, its last and its middle character:
/// enough to tell the names of properties apart.
#[verifier::opaque]
pub open spec fn shape_of(s: Seq<char>) -> (nat, char, char, char) {
    (s.len(), s[1], s[s.len() - 1], s[s.len() as int / 2])
}

proof fn lemma_shapes_0()
    ensures
        shape_of("inheritedMembership"@) == (19nat, 'n', 'p', 'M'),
        shape_of("inheritedFeature"@) == (16nat, 'n', 'e', 'd'),
        shape_of("importedMembership"@) == (18nat, 'm', 'p', 'e'),
        shape_of("relatedElement"@) == (14nat, 'e', 't', 'E'),
        shape_of("relatedFeature"@) == (14nat, 'e', 'e', 'F'),
        shape_of("sourceFeature"@) == (13nat, 'o', 'e', 'F'),
        shape_of("targetFeature"@) == (13nat, 'a', 'e', 'F'),
        shape_of("owner"@) == (5nat, 'w', 'r', 'n'),
        shape_of("owningMembership"@) == (16nat, 'w', 'p', 'm'),
        shape_of("owningNamespace"@) == (15nat, 'w', 'e', 'a'),
        shape_of("ownedElement"@) == (12nat, 'w', 't', 'l'),
        shape_of("isLibraryElement"@) == (16nat, 's', 't', 'y'),
        shape_of("ownedMembership"@) == (15nat, 'w', 'p', 'm'),
        shape_of("membership"@) == (10nat, 'e', 'p', 'r'),
        shape_of("ownedMember"@) == (11nat, 'w', 'r', 'M'),
        shape_of("member"@) == (6nat, 'e', 'r', 'b'),
        shape_of("ownedImport"@) == (11nat, 'w', 't', 'I'),
        shape_of("ownedFeatureMembership"@) == (22nat, 'w', 'p', 'e'),
        shape_of("featureMembership"@) == (17nat, 'e', 'p', 'e'),
        shape_of("ownedFeature"@) == (12nat, 'w', 'e', 'e'),
        shape_of("feature"@) == (7nat, 'e', 'e', 't'),
        shape_of("featuringType"@) == (13nat, 'e', 'e', 'i'),
        shape_of("owningType"@) == (10nat, 'w', 'e', 'g'),
        shape_of("owningClassifier"@) == (16nat, 'w', 'r', 'a'),
        shape_of("owningFeature"@) == (13nat, 'w', 'e', 'F'),
        shape_of("owningFeatureOfType"@) == (19nat, 'w', 'e', 't'),
{
    reveal(shape_of);
    reveal_strlit("inheritedMembership");
    reveal_strlit("inheritedFeature");
    reveal_strlit("importedMembership");
    reveal_strlit("relatedElement");
    reveal_strlit("relatedFeature");
    reveal_strlit("sourceFeature");
    reveal_strlit("targetFeature");
    reveal_strlit("owner");
    reveal_strlit("owningMembership");
    reveal_strlit("owningNamespace");
    reveal_strlit("ownedElement");
    reveal_strlit("isLibraryElement");
    reveal_strlit("ownedMembership");
    reveal_strlit("membership");
    reveal_strlit("ownedMember");
    reveal_strlit("member");
    reveal_strlit("ownedImport");
    reveal_strlit("ownedFeatureMembership");
    reveal_strlit("featureMembership");
    reveal_strlit("ownedFeature");
    reveal_strlit("feature");
    reveal_strlit("featuringType");
    reveal_strlit("owningType");
    reveal_strlit("owningClassifier");
    reveal_strlit("owningFeature");
    reveal_strlit("owningFeatureOfType");
}

proof fn lemma_shapes_1()
    ensures
        shape_of("owningFeatureMembership"@) == (23nat, 'w', 'p', 'r'),
        shape_of("endOwningType"@) == (13nat, 'n', 'e', 'i'),
        shape_of("owningDefinition"@) == (16nat, 'w', 'n', 'f'),
        shape_of("owningUsage"@) == (11nat, 'w', 'e', 'g'),
        shape_of("membershipOwningNamespace"@) == (25nat, 'e', 'e', 'n'),
        shape_of("importOwningNamespace"@) == (21nat, 'm', 'e', 'n'),
        shape_of("featureWithValue"@) == (16nat, 'e', 'e', 'i'),
        shape_of("featureChained"@) == (14nat, 'e', 'd', 'C'),
        shape_of("referencingFeature"@) == (18nat, 'e', 'e', 'n'),
        shape_of("crossingFeature"@) == (15nat, 'r', 'e', 'g'),
        shape_of("typeUnioned"@) == (11nat, 'y', 'd', 'n'),
        shape_of("typeIntersected"@) == (15nat, 'y', 'd', 'e'),
        shape_of("typeDifferenced"@) == (15nat, 'y', 'd', 'f'),
        shape_of("ownedMemberElement"@) == (18nat, 'w', 't', 'e'),
        shape_of("ownedMemberFeature"@) == (18nat, 'w', 'e', 'e'),
        shape_of("importedElement"@) == (15nat, 'm', 't', 'd'),
        shape_of("isReference"@) == (11nat, 's', 'e', 'e'),
        shape_of("name"@) == (4nat, 'a', 'e', 'm'),
        shape_of("shortName"@) == (9nat, 'h', 'e', 't'),
        shape_of("qualifiedName"@) == (13nat, 'u', 'e', 'i'),
        shape_of("text"@) == (4nat, 'e', 't', 'x'),
        shape_of("multiplicity"@) == (12nat, 'u', 'y', 'l'),
        shape_of("ownedConjugator"@) == (15nat, 'w', 'r', 'n'),
        shape_of("annotation"@) == (10nat, 'n', 'n', 'a'),
        shape_of("ownedAnnotatingRelationship"@) == (27nat, 'w', 'p', 'n'),
        shape_of("ownedAnnotation"@) == (15nat, 'w', 'n', 'n'),
{
    reveal(shape_of);
    reveal_strlit("owningFeatureMembership");
    reveal_strlit("endOwningType");
    reveal_strlit("owningDefinition");
    reveal_strlit("owningUsage");
    reveal_strlit("membershipOwningNamespace");
    reveal_strlit("importOwningNamespace");
    reveal_strlit("featureWithValue");
    reveal_strlit("featureChained");
    reveal_strlit("referencingFeature");
    reveal_strlit("crossingFeature");
    reveal_strlit("typeUnioned");
    reveal_strlit("typeIntersected");
    reveal_strlit("typeDifferenced");
    reveal_strlit("ownedMemberElement");
    reveal_strlit("ownedMemberFeature");
    reveal_strlit("importedElement");
    reveal_strlit("isReference");
    reveal_strlit("name");
    reveal_strlit("shortName");
    reveal_strlit("qualifiedName");
    reveal_strlit("text");
    reveal_strlit("multiplicity");
    reveal_strlit("ownedConjugator");
    reveal_strlit("annotation");
    reveal_strlit("ownedAnnotatingRelationship");
    reveal_strlit("ownedAnnotation");
}

proof fn lemma_shapes_2()
    ensures
        shape_of("annotatedElement"@) == (16nat, 'n', 't', 'd'),
        shape_of("documentedElement"@) == (17nat, 'o', 't', 'e'),
        shape_of("representedElement"@) == (18nat, 'e', 't', 'e'),
        shape_of("annotatingElement"@) == (17nat, 'n', 't', 'n'),
        shape_of("ownedAnnotatingElement"@) == (22nat, 'w', 't', 't'),
        shape_of("owningAnnotatingElement"@) == (23nat, 'w', 't', 'a'),
        shape_of("owningAnnotatedElement"@) == (22nat, 'w', 't', 'a'),
        shape_of("owningAnnotatingRelationship"@) == (28nat, 'w', 'p', 'n'),
        shape_of("type"@) == (4nat, 'y', 'e', 'p'),
        shape_of("definition"@) == (10nat, 'e', 'n', 'i'),
        shape_of("entryAction"@) == (11nat, 'n', 'n', 'A'),
        shape_of("doAction"@) == (8nat, 'o', 'n', 't'),
        shape_of("exitAction"@) == (10nat, 'x', 'n', 'c'),
        shape_of("triggerAction"@) == (13nat, 'r', 'n', 'r'),
        shape_of("guardExpression"@) == (15nat, 'u', 'n', 'p'),
        shape_of("effectAction"@) == (12nat, 'f', 'n', 'A'),
        shape_of("succession"@) == (10nat, 'u', 'n', 's'),
        shape_of("source"@) == (6nat, 'o', 'e', 'r'),
        shape_of("target"@) == (6nat, 'a', 't', 'g'),
        shape_of("loopVariable"@) == (12nat, 'o', 'e', 'r'),
        shape_of("ifArgument"@) == (10nat, 'f', 't', 'u'),
        shape_of("whileArgument"@) == (13nat, 'h', 't', 'r'),
        shape_of("thenAction"@) == (10nat, 'h', 'n', 'c'),
        shape_of("bodyAction"@) == (10nat, 'o', 'n', 'c'),
        shape_of("elseAction"@) == (10nat, 'l', 'n', 'c'),
        shape_of("untilArgument"@) == (13nat, 'n', 't', 'r'),
{
    reveal(shape_of);
    reveal_strlit("annotatedElement");
    reveal_strlit("documentedElement");
    reveal_strlit("representedElement");
    reveal_strlit("annotatingElement");
    reveal_strlit("ownedAnnotatingElement");
    reveal_strlit("owningAnnotatingElement");
    reveal_strlit("owningAnnotatedElement");
    reveal_strlit("owningAnnotatingRelationship");
    reveal_strlit("type");
    reveal_strlit("definition");
    reveal_strlit("entryAction");
    reveal_strlit("doAction");
    reveal_strlit("exitAction");
    reveal_strlit("triggerAction");
    reveal_strlit("guardExpression");
    reveal_strlit("effectAction");
    reveal_strlit("succession");
    reveal_strlit("source");
    reveal_strlit("target");
    reveal_strlit("loopVariable");
    reveal_strlit("ifArgument");
    reveal_strlit("whileArgument");
    reveal_strlit("thenAction");
    reveal_strlit("bodyAction");
    reveal_strlit("elseAction");
    reveal_strlit("untilArgument");
}

proof fn lemma_shapes_3()
    ensures
        shape_of("payloadArgument"@) == (15nat, 'a', 't', 'A'),
        shape_of("seqArgument"@) == (11nat, 'e', 't', 'g'),
        shape_of("targetArgument"@) == (14nat, 'a', 't', 'r'),
        shape_of("terminatedOccurrenceArgument"@) == (28nat, 'e', 't', 'r'),
        shape_of("valueExpression"@) == (15nat, 'a', 'n', 'p'),
        shape_of("senderArgument"@) == (14nat, 'e', 't', 'r'),
        shape_of("receiverArgument"@) == (16nat, 'e', 't', 'A'),
        shape_of("payloadParameter"@) == (16nat, 'a', 'r', 'a'),
        shape_of("eventOccurrence"@) == (15nat, 'v', 'e', 'c'),
        shape_of("performedAction"@) == (15nat, 'e', 'n', 'e'),
        shape_of("exhibitedState"@) == (14nat, 'x', 'e', 'e'),
        shape_of("useCaseIncluded"@) == (15nat, 's', 'd', 'I'),
        shape_of("assertedConstraint"@) == (18nat, 's', 't', 'o'),
        shape_of("satisfiedRequirement"@) == (20nat, 'a', 't', 'e'),
        shape_of("includedUseCase"@) == (15nat, 'n', 'e', 'd'),
        shape_of("result"@) == (6nat, 'e', 't', 'u'),
        shape_of("function"@) == (8nat, 'u', 'n', 't'),
        shape_of("predicate"@) == (9nat, 'r', 'e', 'i'),
        shape_of("metaclass"@) == (9nat, 'e', 's', 'c'),
        shape_of("association"@) == (11nat, 's', 'n', 'i'),
        shape_of("interaction"@) == (11nat, 'n', 'n', 'a'),
        shape_of("payloadFeature"@) == (14nat, 'a', 'e', 'F'),
        shape_of("payloadType"@) == (11nat, 'a', 'e', 'a'),
        shape_of("individualDefinition"@) == (20nat, 'n', 'n', 'D'),
        shape_of("instantiatedType"@) == (16nat, 'n', 'e', 'a'),
        shape_of("argument"@) == (8nat, 'r', 't', 'm'),
{
    reveal(shape_of);
    reveal_strlit("payloadArgument");
    reveal_strlit("seqArgument");
    reveal_strlit("targetArgument");
    reveal_strlit("terminatedOccurrenceArgument");
    reveal_strlit("valueExpression");
    reveal_strlit("senderArgument");
    reveal_strlit("receiverArgument");
    reveal_strlit("payloadParameter");
    reveal_strlit("eventOccurrence");
    reveal_strlit("performedAction");
    reveal_strlit("exhibitedState");
    reveal_strlit("useCaseIncluded");
    reveal_strlit("assertedConstraint");
    reveal_strlit("satisfiedRequirement");
    reveal_strlit("includedUseCase");
    reveal_strlit("result");
    reveal_strlit("function");
    reveal_strlit("predicate");
    reveal_strlit("metaclass");
    reveal_strlit("association");
    reveal_strlit("interaction");
    reveal_strlit("payloadFeature");
    reveal_strlit("payloadType");
    reveal_strlit("individualDefinition");
    reveal_strlit("instantiatedType");
    reveal_strlit("argument");
}

proof fn lemma_shapes_4()
    ensures
        shape_of("referent"@) == (8nat, 'e', 't', 'r'),
        shape_of("referencedElement"@) == (17nat, 'e', 't', 'e'),
        shape_of("expression"@) == (10nat, 'x', 'n', 's'),
        shape_of("bound"@) == (5nat, 'o', 'd', 'u'),
        shape_of("lowerBound"@) == (10nat, 'o', 'd', 'B'),
        shape_of("upperBound"@) == (10nat, 'p', 'd', 'B'),
        shape_of("filterCondition"@) == (15nat, 'i', 'n', 'o'),
        shape_of("viewCondition"@) == (13nat, 'i', 'n', 'n'),
        shape_of("memberElementId"@) == (15nat, 'e', 'd', 'l'),
        shape_of("ownedMemberElementId"@) == (20nat, 'w', 'd', 'r'),
        shape_of("ownedMemberName"@) == (15nat, 'w', 'e', 'm'),
        shape_of("ownedMemberShortName"@) == (20nat, 'w', 'e', 'r'),
        shape_of("enumeratedValue"@) == (15nat, 'n', 'e', 't'),
        shape_of("variant"@) == (7nat, 'a', 't', 'i'),
        shape_of("isConjugated"@) == (12nat, 's', 'd', 'u'),
        shape_of("conjugatedPortDefinition"@) == (24nat, 'o', 'n', 'r'),
        shape_of("ownedPortConjugator"@) == (19nat, 'w', 'r', 'C'),
        shape_of("parameter"@) == (9nat, 'a', 'r', 'm'),
        shape_of("directedFeature"@) == (15nat, 'i', 'e', 'd'),
        shape_of("associationEnd"@) == (14nat, 's', 'd', 't'),
        shape_of("connectionEnd"@) == (13nat, 'o', 'd', 't'),
        shape_of("interfaceEnd"@) == (12nat, 'n', 'd', 'a'),
        shape_of("endFeature"@) == (10nat, 'n', 'e', 'a'),
        shape_of("connectorEnd"@) == (12nat, 'o', 'd', 't'),
        shape_of("input"@) == (5nat, 'n', 't', 'p'),
        shape_of("output"@) == (6nat, 'u', 't', 'p'),
{
    reveal(shape_of);
    reveal_strlit("referent");
    reveal_strlit("referencedElement");
    reveal_strlit("expression");
    reveal_strlit("bound");
    reveal_strlit("lowerBound");
    reveal_strlit("upperBound");
    reveal_strlit("filterCondition");
    reveal_strlit("viewCondition");
    reveal_strlit("memberElementId");
    reveal_strlit("ownedMemberElementId");
    reveal_strlit("ownedMemberName");
    reveal_strlit("ownedMemberShortName");
    reveal_strlit("enumeratedValue");
    reveal_strlit("variant");
    reveal_strlit("isConjugated");
    reveal_strlit("conjugatedPortDefinition");
    reveal_strlit("ownedPortConjugator");
    reveal_strlit("parameter");
    reveal_strlit("directedFeature");
    reveal_strlit("associationEnd");
    reveal_strlit("connectionEnd");
    reveal_strlit("interfaceEnd");
    reveal_strlit("endFeature");
    reveal_strlit("connectorEnd");
    reveal_strlit("input");
    reveal_strlit("output");
}

proof fn lemma_shapes_5()
    ensures
        shape_of("ownedEndFeature"@) == (15nat, 'w', 'e', 'd'),
        shape_of("subjectParameter"@) == (16nat, 'u', 'r', 'a'),
        shape_of("actorParameter"@) == (14nat, 'c', 'r', 'r'),
        shape_of("stakeholderParameter"@) == (20nat, 't', 'r', 'r'),
        shape_of("objectiveRequirement"@) == (20nat, 'b', 't', 'e'),
        shape_of("framedConcern"@) == (13nat, 'r', 'n', 'C'),
        shape_of("resultExpression"@) == (16nat, 'e', 'n', 'p'),
        shape_of("requiredConstraint"@) == (18nat, 'e', 't', 'o'),
        shape_of("assumedConstraint"@) == (17nat, 's', 't', 'o'),
        shape_of("referencedConstraint"@) == (20nat, 'e', 't', 'C'),
        shape_of("referencedConcern"@) == (17nat, 'e', 'n', 'e'),
        shape_of("referencedRendering"@) == (19nat, 'e', 'g', 'd'),
        shape_of("viewRendering"@) == (13nat, 'i', 'g', 'n'),
        shape_of("satisfyingFeature"@) == (17nat, 'a', 'e', 'n'),
        shape_of("satisfiedViewpoint"@) == (18nat, 'a', 't', 'V'),
        shape_of("viewpointStakeholder"@) == (20nat, 'i', 'r', 't'),
        shape_of("exposedElement"@) == (14nat, 'x', 't', 'E'),
        shape_of("featureTarget"@) == (13nat, 'e', 't', 'e'),
        shape_of("chainingFeature"@) == (15nat, 'h', 'e', 'g'),
        shape_of("crossFeature"@) == (12nat, 'r', 'e', 'e'),
        shape_of("unioningType"@) == (12nat, 'n', 'e', 'n'),
        shape_of("intersectingType"@) == (16nat, 'n', 'e', 't'),
        shape_of("differencingType"@) == (16nat, 'i', 'e', 'c'),
        shape_of("relatedType"@) == (11nat, 'e', 'e', 'e'),
        shape_of("sourceType"@) == (10nat, 'o', 'e', 'e'),
        shape_of("targetType"@) == (10nat, 'a', 'e', 't'),
{
    reveal(shape_of);
    reveal_strlit("ownedEndFeature");
    reveal_strlit("subjectParameter");
    reveal_strlit("actorParameter");
    reveal_strlit("stakeholderParameter");
    reveal_strlit("objectiveRequirement");
    reveal_strlit("framedConcern");
    reveal_strlit("resultExpression");
    reveal_strlit("requiredConstraint");
    reveal_strlit("assumedConstraint");
    reveal_strlit("referencedConstraint");
    reveal_strlit("referencedConcern");
    reveal_strlit("referencedRendering");
    reveal_strlit("viewRendering");
    reveal_strlit("satisfyingFeature");
    reveal_strlit("satisfiedViewpoint");
    reveal_strlit("viewpointStakeholder");
    reveal_strlit("exposedElement");
    reveal_strlit("featureTarget");
    reveal_strlit("chainingFeature");
    reveal_strlit("crossFeature");
    reveal_strlit("unioningType");
    reveal_strlit("intersectingType");
    reveal_strlit("differencingType");
    reveal_strlit("relatedType");
    reveal_strlit("sourceType");
    reveal_strlit("targetType");
}

proof fn lemma_shapes_6()
    ensures
        shape_of("defaultFeaturingType"@) == (20nat, 'e', 'e', 't'),
        shape_of("isModelLevelEvaluable"@) == (21nat, 's', 'e', 'e'),
        shape_of("ownedSpecialization"@) == (19nat, 'w', 'n', 'i'),
        shape_of("ownedFeatureInverting"@) == (21nat, 'w', 'g', 'r'),
        shape_of("ownedTypeFeaturing"@) == (18nat, 'w', 'g', 'F'),
        shape_of("ownedReferenceSubsetting"@) == (24nat, 'w', 'g', 'c'),
        shape_of("ownedCrossSubsetting"@) == (20nat, 'w', 'g', 'S'),
        shape_of("sourceOutputFeature"@) == (19nat, 'o', 'e', 'p'),
        shape_of("targetInputFeature"@) == (18nat, 'a', 'e', 'u'),
        shape_of("originalPortDefinition"@) == (22nat, 'r', 'n', 't'),
        shape_of("verifiedRequirement"@) == (19nat, 'e', 't', 'e'),
        shape_of("action"@) == (6nat, 'c', 'n', 'i'),
        shape_of("condition"@) == (9nat, 'o', 'n', 'i'),
        shape_of("ownedActorParameter"@) == (19nat, 'w', 'r', 'r'),
        shape_of("ownedConcern"@) == (12nat, 'w', 'n', 'o'),
        shape_of("ownedConstraint"@) == (15nat, 'w', 't', 'n'),
        shape_of("ownedMemberParameter"@) == (20nat, 'w', 'r', 'r'),
        shape_of("ownedObjectiveRequirement"@) == (25nat, 'w', 't', 'v'),
        shape_of("ownedRendering"@) == (14nat, 'w', 'g', 'n'),
        shape_of("ownedRequirement"@) == (16nat, 'w', 't', 'u'),
        shape_of("ownedResultExpression"@) == (21nat, 'w', 'n', 't'),
        shape_of("ownedStakeholderParameter"@) == (25nat, 'w', 'r', 'l'),
        shape_of("ownedSubjectParameter"@) == (21nat, 'w', 'r', 'c'),
        shape_of("ownedVariantUsage"@) == (17nat, 'w', 'e', 'i'),
        shape_of("transitionFeature"@) == (17nat, 'r', 'e', 'o'),
        shape_of("value"@) == (5nat, 'a', 'e', 'l'),
{
    reveal(shape_of);
    reveal_strlit("defaultFeaturingType");
    reveal_strlit("isModelLevelEvaluable");
    reveal_strlit("ownedSpecialization");
    reveal_strlit("ownedFeatureInverting");
    reveal_strlit("ownedTypeFeaturing");
    reveal_strlit("ownedReferenceSubsetting");
    reveal_strlit("ownedCrossSubsetting");
    reveal_strlit("sourceOutputFeature");
    reveal_strlit("targetInputFeature");
    reveal_strlit("originalPortDefinition");
    reveal_strlit("verifiedRequirement");
    reveal_strlit("action");
    reveal_strlit("condition");
    reveal_strlit("ownedActorParameter");
    reveal_strlit("ownedConcern");
    reveal_strlit("ownedConstraint");
    reveal_strlit("ownedMemberParameter");
    reveal_strlit("ownedObjectiveRequirement");
    reveal_strlit("ownedRendering");
    reveal_strlit("ownedRequirement");
    reveal_strlit("ownedResultExpression");
    reveal_strlit("ownedStakeholderParameter");
    reveal_strlit("ownedSubjectParameter");
    reveal_strlit("ownedVariantUsage");
    reveal_strlit("transitionFeature");
    reveal_strlit("value");
}

/// The shapes of the names: no two are the same.
pub proof fn lemma_shapes()
    ensures
        shape_of("inheritedMembership"@) == (19nat, 'n', 'p', 'M'),
        shape_of("inheritedFeature"@) == (16nat, 'n', 'e', 'd'),
        shape_of("importedMembership"@) == (18nat, 'm', 'p', 'e'),
        shape_of("relatedElement"@) == (14nat, 'e', 't', 'E'),
        shape_of("relatedFeature"@) == (14nat, 'e', 'e', 'F'),
        shape_of("sourceFeature"@) == (13nat, 'o', 'e', 'F'),
        shape_of("targetFeature"@) == (13nat, 'a', 'e', 'F'),
        shape_of("owner"@) == (5nat, 'w', 'r', 'n'),
        shape_of("owningMembership"@) == (16nat, 'w', 'p', 'm'),
        shape_of("owningNamespace"@) == (15nat, 'w', 'e', 'a'),
        shape_of("ownedElement"@) == (12nat, 'w', 't', 'l'),
        shape_of("isLibraryElement"@) == (16nat, 's', 't', 'y'),
        shape_of("ownedMembership"@) == (15nat, 'w', 'p', 'm'),
        shape_of("membership"@) == (10nat, 'e', 'p', 'r'),
        shape_of("ownedMember"@) == (11nat, 'w', 'r', 'M'),
        shape_of("member"@) == (6nat, 'e', 'r', 'b'),
        shape_of("ownedImport"@) == (11nat, 'w', 't', 'I'),
        shape_of("ownedFeatureMembership"@) == (22nat, 'w', 'p', 'e'),
        shape_of("featureMembership"@) == (17nat, 'e', 'p', 'e'),
        shape_of("ownedFeature"@) == (12nat, 'w', 'e', 'e'),
        shape_of("feature"@) == (7nat, 'e', 'e', 't'),
        shape_of("featuringType"@) == (13nat, 'e', 'e', 'i'),
        shape_of("owningType"@) == (10nat, 'w', 'e', 'g'),
        shape_of("owningClassifier"@) == (16nat, 'w', 'r', 'a'),
        shape_of("owningFeature"@) == (13nat, 'w', 'e', 'F'),
        shape_of("owningFeatureOfType"@) == (19nat, 'w', 'e', 't'),
        shape_of("owningFeatureMembership"@) == (23nat, 'w', 'p', 'r'),
        shape_of("endOwningType"@) == (13nat, 'n', 'e', 'i'),
        shape_of("owningDefinition"@) == (16nat, 'w', 'n', 'f'),
        shape_of("owningUsage"@) == (11nat, 'w', 'e', 'g'),
        shape_of("membershipOwningNamespace"@) == (25nat, 'e', 'e', 'n'),
        shape_of("importOwningNamespace"@) == (21nat, 'm', 'e', 'n'),
        shape_of("featureWithValue"@) == (16nat, 'e', 'e', 'i'),
        shape_of("featureChained"@) == (14nat, 'e', 'd', 'C'),
        shape_of("referencingFeature"@) == (18nat, 'e', 'e', 'n'),
        shape_of("crossingFeature"@) == (15nat, 'r', 'e', 'g'),
        shape_of("typeUnioned"@) == (11nat, 'y', 'd', 'n'),
        shape_of("typeIntersected"@) == (15nat, 'y', 'd', 'e'),
        shape_of("typeDifferenced"@) == (15nat, 'y', 'd', 'f'),
        shape_of("ownedMemberElement"@) == (18nat, 'w', 't', 'e'),
        shape_of("ownedMemberFeature"@) == (18nat, 'w', 'e', 'e'),
        shape_of("importedElement"@) == (15nat, 'm', 't', 'd'),
        shape_of("isReference"@) == (11nat, 's', 'e', 'e'),
        shape_of("name"@) == (4nat, 'a', 'e', 'm'),
        shape_of("shortName"@) == (9nat, 'h', 'e', 't'),
        shape_of("qualifiedName"@) == (13nat, 'u', 'e', 'i'),
        shape_of("text"@) == (4nat, 'e', 't', 'x'),
        shape_of("multiplicity"@) == (12nat, 'u', 'y', 'l'),
        shape_of("ownedConjugator"@) == (15nat, 'w', 'r', 'n'),
        shape_of("annotation"@) == (10nat, 'n', 'n', 'a'),
        shape_of("ownedAnnotatingRelationship"@) == (27nat, 'w', 'p', 'n'),
        shape_of("ownedAnnotation"@) == (15nat, 'w', 'n', 'n'),
        shape_of("annotatedElement"@) == (16nat, 'n', 't', 'd'),
        shape_of("documentedElement"@) == (17nat, 'o', 't', 'e'),
        shape_of("representedElement"@) == (18nat, 'e', 't', 'e'),
        shape_of("annotatingElement"@) == (17nat, 'n', 't', 'n'),
        shape_of("ownedAnnotatingElement"@) == (22nat, 'w', 't', 't'),
        shape_of("owningAnnotatingElement"@) == (23nat, 'w', 't', 'a'),
        shape_of("owningAnnotatedElement"@) == (22nat, 'w', 't', 'a'),
        shape_of("owningAnnotatingRelationship"@) == (28nat, 'w', 'p', 'n'),
        shape_of("type"@) == (4nat, 'y', 'e', 'p'),
        shape_of("definition"@) == (10nat, 'e', 'n', 'i'),
        shape_of("entryAction"@) == (11nat, 'n', 'n', 'A'),
        shape_of("doAction"@) == (8nat, 'o', 'n', 't'),
        shape_of("exitAction"@) == (10nat, 'x', 'n', 'c'),
        shape_of("triggerAction"@) == (13nat, 'r', 'n', 'r'),
        shape_of("guardExpression"@) == (15nat, 'u', 'n', 'p'),
        shape_of("effectAction"@) == (12nat, 'f', 'n', 'A'),
        shape_of("succession"@) == (10nat, 'u', 'n', 's'),
        shape_of("source"@) == (6nat, 'o', 'e', 'r'),
        shape_of("target"@) == (6nat, 'a', 't', 'g'),
        shape_of("loopVariable"@) == (12nat, 'o', 'e', 'r'),
        shape_of("ifArgument"@) == (10nat, 'f', 't', 'u'),
        shape_of("whileArgument"@) == (13nat, 'h', 't', 'r'),
        shape_of("thenAction"@) == (10nat, 'h', 'n', 'c'),
        shape_of("bodyAction"@) == (10nat, 'o', 'n', 'c'),
        shape_of("elseAction"@) == (10nat, 'l', 'n', 'c'),
        shape_of("untilArgument"@) == (13nat, 'n', 't', 'r'),
        shape_of("payloadArgument"@) == (15nat, 'a', 't', 'A'),
        shape_of("seqArgument"@) == (11nat, 'e', 't', 'g'),
        shape_of("targetArgument"@) == (14nat, 'a', 't', 'r'),
        shape_of("terminatedOccurrenceArgument"@) == (28nat, 'e', 't', 'r'),
        shape_of("valueExpression"@) == (15nat, 'a', 'n', 'p'),
        shape_of("senderArgument"@) == (14nat, 'e', 't', 'r'),
        shape_of("receiverArgument"@) == (16nat, 'e', 't', 'A'),
        shape_of("payloadParameter"@) == (16nat, 'a', 'r', 'a'),
        shape_of("eventOccurrence"@) == (15nat, 'v', 'e', 'c'),
        shape_of("performedAction"@) == (15nat, 'e', 'n', 'e'),
        shape_of("exhibitedState"@) == (14nat, 'x', 'e', 'e'),
        shape_of("useCaseIncluded"@) == (15nat, 's', 'd', 'I'),
        shape_of("assertedConstraint"@) == (18nat, 's', 't', 'o'),
        shape_of("satisfiedRequirement"@) == (20nat, 'a', 't', 'e'),
        shape_of("includedUseCase"@) == (15nat, 'n', 'e', 'd'),
        shape_of("result"@) == (6nat, 'e', 't', 'u'),
        shape_of("function"@) == (8nat, 'u', 'n', 't'),
        shape_of("predicate"@) == (9nat, 'r', 'e', 'i'),
        shape_of("metaclass"@) == (9nat, 'e', 's', 'c'),
        shape_of("association"@) == (11nat, 's', 'n', 'i'),
        shape_of("interaction"@) == (11nat, 'n', 'n', 'a'),
        shape_of("payloadFeature"@) == (14nat, 'a', 'e', 'F'),
        shape_of("payloadType"@) == (11nat, 'a', 'e', 'a'),
        shape_of("individualDefinition"@) == (20nat, 'n', 'n', 'D'),
        shape_of("instantiatedType"@) == (16nat, 'n', 'e', 'a'),
        shape_of("argument"@) == (8nat, 'r', 't', 'm'),
        shape_of("referent"@) == (8nat, 'e', 't', 'r'),
        shape_of("referencedElement"@) == (17nat, 'e', 't', 'e'),
        shape_of("expression"@) == (10nat, 'x', 'n', 's'),
        shape_of("bound"@) == (5nat, 'o', 'd', 'u'),
        shape_of("lowerBound"@) == (10nat, 'o', 'd', 'B'),
        shape_of("upperBound"@) == (10nat, 'p', 'd', 'B'),
        shape_of("filterCondition"@) == (15nat, 'i', 'n', 'o'),
        shape_of("viewCondition"@) == (13nat, 'i', 'n', 'n'),
        shape_of("memberElementId"@) == (15nat, 'e', 'd', 'l'),
        shape_of("ownedMemberElementId"@) == (20nat, 'w', 'd', 'r'),
        shape_of("ownedMemberName"@) == (15nat, 'w', 'e', 'm'),
        shape_of("ownedMemberShortName"@) == (20nat, 'w', 'e', 'r'),
        shape_of("enumeratedValue"@) == (15nat, 'n', 'e', 't'),
        shape_of("variant"@) == (7nat, 'a', 't', 'i'),
        shape_of("isConjugated"@) == (12nat, 's', 'd', 'u'),
        shape_of("conjugatedPortDefinition"@) == (24nat, 'o', 'n', 'r'),
        shape_of("ownedPortConjugator"@) == (19nat, 'w', 'r', 'C'),
        shape_of("parameter"@) == (9nat, 'a', 'r', 'm'),
        shape_of("directedFeature"@) == (15nat, 'i', 'e', 'd'),
        shape_of("associationEnd"@) == (14nat, 's', 'd', 't'),
        shape_of("connectionEnd"@) == (13nat, 'o', 'd', 't'),
        shape_of("interfaceEnd"@) == (12nat, 'n', 'd', 'a'),
        shape_of("endFeature"@) == (10nat, 'n', 'e', 'a'),
        shape_of("connectorEnd"@) == (12nat, 'o', 'd', 't'),
        shape_of("input"@) == (5nat, 'n', 't', 'p'),
        shape_of("output"@) == (6nat, 'u', 't', 'p'),
        shape_of("ownedEndFeature"@) == (15nat, 'w', 'e', 'd'),
        shape_of("subjectParameter"@) == (16nat, 'u', 'r', 'a'),
        shape_of("actorParameter"@) == (14nat, 'c', 'r', 'r'),
        shape_of("stakeholderParameter"@) == (20nat, 't', 'r', 'r'),
        shape_of("objectiveRequirement"@) == (20nat, 'b', 't', 'e'),
        shape_of("framedConcern"@) == (13nat, 'r', 'n', 'C'),
        shape_of("resultExpression"@) == (16nat, 'e', 'n', 'p'),
        shape_of("requiredConstraint"@) == (18nat, 'e', 't', 'o'),
        shape_of("assumedConstraint"@) == (17nat, 's', 't', 'o'),
        shape_of("referencedConstraint"@) == (20nat, 'e', 't', 'C'),
        shape_of("referencedConcern"@) == (17nat, 'e', 'n', 'e'),
        shape_of("referencedRendering"@) == (19nat, 'e', 'g', 'd'),
        shape_of("viewRendering"@) == (13nat, 'i', 'g', 'n'),
        shape_of("satisfyingFeature"@) == (17nat, 'a', 'e', 'n'),
        shape_of("satisfiedViewpoint"@) == (18nat, 'a', 't', 'V'),
        shape_of("viewpointStakeholder"@) == (20nat, 'i', 'r', 't'),
        shape_of("exposedElement"@) == (14nat, 'x', 't', 'E'),
        shape_of("featureTarget"@) == (13nat, 'e', 't', 'e'),
        shape_of("chainingFeature"@) == (15nat, 'h', 'e', 'g'),
        shape_of("crossFeature"@) == (12nat, 'r', 'e', 'e'),
        shape_of("unioningType"@) == (12nat, 'n', 'e', 'n'),
        shape_of("intersectingType"@) == (16nat, 'n', 'e', 't'),
        shape_of("differencingType"@) == (16nat, 'i', 'e', 'c'),
        shape_of("relatedType"@) == (11nat, 'e', 'e', 'e'),
        shape_of("sourceType"@) == (10nat, 'o', 'e', 'e'),
        shape_of("targetType"@) == (10nat, 'a', 'e', 't'),
        shape_of("defaultFeaturingType"@) == (20nat, 'e', 'e', 't'),
        shape_of("isModelLevelEvaluable"@) == (21nat, 's', 'e', 'e'),
        shape_of("ownedSpecialization"@) == (19nat, 'w', 'n', 'i'),
        shape_of("ownedFeatureInverting"@) == (21nat, 'w', 'g', 'r'),
        shape_of("ownedTypeFeaturing"@) == (18nat, 'w', 'g', 'F'),
        shape_of("ownedReferenceSubsetting"@) == (24nat, 'w', 'g', 'c'),
        shape_of("ownedCrossSubsetting"@) == (20nat, 'w', 'g', 'S'),
        shape_of("sourceOutputFeature"@) == (19nat, 'o', 'e', 'p'),
        shape_of("targetInputFeature"@) == (18nat, 'a', 'e', 'u'),
        shape_of("originalPortDefinition"@) == (22nat, 'r', 'n', 't'),
        shape_of("verifiedRequirement"@) == (19nat, 'e', 't', 'e'),
        shape_of("action"@) == (6nat, 'c', 'n', 'i'),
        shape_of("condition"@) == (9nat, 'o', 'n', 'i'),
        shape_of("ownedActorParameter"@) == (19nat, 'w', 'r', 'r'),
        shape_of("ownedConcern"@) == (12nat, 'w', 'n', 'o'),
        shape_of("ownedConstraint"@) == (15nat, 'w', 't', 'n'),
        shape_of("ownedMemberParameter"@) == (20nat, 'w', 'r', 'r'),
        shape_of("ownedObjectiveRequirement"@) == (25nat, 'w', 't', 'v'),
        shape_of("ownedRendering"@) == (14nat, 'w', 'g', 'n'),
        shape_of("ownedRequirement"@) == (16nat, 'w', 't', 'u'),
        shape_of("ownedResultExpression"@) == (21nat, 'w', 'n', 't'),
        shape_of("ownedStakeholderParameter"@) == (25nat, 'w', 'r', 'l'),
        shape_of("ownedSubjectParameter"@) == (21nat, 'w', 'r', 'c'),
        shape_of("ownedVariantUsage"@) == (17nat, 'w', 'e', 'i'),
        shape_of("transitionFeature"@) == (17nat, 'r', 'e', 'o'),
        shape_of("value"@) == (5nat, 'a', 'e', 'l'),
{
    lemma_shapes_0();
    lemma_shapes_1();
    lemma_shapes_2();
    lemma_shapes_3();
    lemma_shapes_4();
    lemma_shapes_5();
    lemma_shapes_6();
}

/// These names are computed on their own.
pub proof fn lemma_written_names()
    ensures
        hand_written("owner"@),
        hand_written("owningMembership"@),
        hand_written("owningNamespace"@),
        hand_written("ownedElement"@),
        hand_written("ownedMembership"@),
        hand_written("ownedMember"@),
        hand_written("ownedImport"@),
        hand_written("ownedFeatureMembership"@),
        hand_written("ownedFeature"@),
        hand_written("feature"@),
        hand_written("input"@),
        hand_written("output"@),
        hand_written("directedFeature"@),
        hand_written("parameter"@),
        hand_written("endFeature"@),
        hand_written("connectorEnd"@),
        hand_written("ownedEndFeature"@),
        hand_written("entryAction"@),
        hand_written("doAction"@),
        hand_written("exitAction"@),
        hand_written("triggerAction"@),
        hand_written("guardExpression"@),
        hand_written("effectAction"@),
        hand_written("subjectParameter"@),
        hand_written("actorParameter"@),
        hand_written("stakeholderParameter"@),
        hand_written("objectiveRequirement"@),
        hand_written("framedConcern"@),
        hand_written("resultExpression"@),
        hand_written("requiredConstraint"@),
        hand_written("assumedConstraint"@),
        hand_written("bound"@),
        hand_written("lowerBound"@),
        hand_written("upperBound"@),
        hand_written("multiplicity"@),
        hand_written("owningType"@),
        hand_written("owningDefinition"@),
        hand_written("owningUsage"@),
        hand_written("owningFeatureMembership"@),
        hand_written("membershipOwningNamespace"@),
        hand_written("ownedMemberElement"@),
        hand_written("unioningType"@),
        hand_written("intersectingType"@),
        hand_written("differencingType"@),
        hand_written("relatedType"@),
        hand_written("sourceType"@),
        hand_written("targetType"@),
        hand_written("type"@),
        hand_written("definition"@),
        hand_written("function"@),
        hand_written("predicate"@),
        hand_written("metaclass"@),
        hand_written("association"@),
        hand_written("interaction"@),
        hand_written("ownedConjugator"@),
        hand_written("thenAction"@),
        hand_written("elseAction"@),
        hand_written("ifArgument"@),
        hand_written("whileArgument"@),
        hand_written("bodyAction"@),
        hand_written("untilArgument"@),
        hand_written("exposedElement"@),
        hand_written("sourceOutputFeature"@),
        hand_written("targetInputFeature"@),
        hand_written("ownedSpecialization"@),
        hand_written("ownedReferenceSubsetting"@),
        hand_written("ownedCrossSubsetting"@),
        hand_written("satisfiedRequirement"@),
        hand_written("performedAction"@),
        hand_written("exhibitedState"@),
        hand_written("importedElement"@),
        hand_written("variant"@),
        hand_written("enumeratedValue"@),
        hand_written("succession"@),
        hand_written("source"@),
        hand_written("target"@),
{
    reveal(exact_names_0);
    reveal(exact_names_1);
    reveal(exact_names_2);
    reveal(exact_names_3);
    reveal(exact_names_4);
    reveal(exact_names_5);
    reveal(exact_names_6);
    reveal(passthrough_names_0);
    reveal(passthrough_names_1);
    reveal(passthrough_names_2);
    assert(exact_names()[71] == exact_names_3()[11]);
    assert(exact_names()[80] == exact_names_4()[0]);
    assert(exact_names()[81] == exact_names_4()[1]);
    assert(exact_names()[54] == exact_names_2()[14]);
    assert(exact_names()[66] == exact_names_3()[6]);
    assert(exact_names()[60] == exact_names_3()[0]);
    assert(exact_names()[59] == exact_names_2()[19]);
    assert(exact_names()[58] == exact_names_2()[18]);
    assert(exact_names()[56] == exact_names_2()[16]);
    assert(passthrough_names()[10] == passthrough_names_0()[10]);
    assert(passthrough_names()[17] == passthrough_names_0()[17]);
    assert(passthrough_names()[23] == passthrough_names_1()[3]);
    assert(passthrough_names()[6] == passthrough_names_0()[6]);
    assert(passthrough_names()[24] == passthrough_names_1()[4]);
    assert(passthrough_names()[7] == passthrough_names_0()[7]);
    assert(passthrough_names()[4] == passthrough_names_0()[4]);
    assert(exact_names()[55] == exact_names_2()[15]);
    assert(exact_names()[19] == exact_names_0()[19]);
    assert(exact_names()[14] == exact_names_0()[14]);
    assert(exact_names()[23] == exact_names_1()[3]);
    assert(exact_names()[112] == exact_names_5()[12]);
    assert(exact_names()[29] == exact_names_1()[9]);
    assert(exact_names()[16] == exact_names_0()[16]);
    assert(passthrough_names()[35] == passthrough_names_1()[15]);
    assert(passthrough_names()[0] == passthrough_names_0()[0]);
    assert(passthrough_names()[34] == passthrough_names_1()[14]);
    assert(passthrough_names()[22] == passthrough_names_1()[2]);
    assert(passthrough_names()[13] == passthrough_names_0()[13]);
    assert(passthrough_names()[29] == passthrough_names_1()[9]);
    assert(exact_names()[99] == exact_names_4()[19]);
    assert(exact_names()[5] == exact_names_0()[5]);
    assert(exact_names()[7] == exact_names_0()[7]);
    assert(exact_names()[42] == exact_names_2()[2]);
    assert(exact_names()[119] == exact_names_5()[19]);
    assert(exact_names()[46] == exact_names_2()[6]);
    assert(exact_names()[82] == exact_names_4()[2]);
    assert(exact_names()[76] == exact_names_3()[16]);
    assert(exact_names()[83] == exact_names_4()[3]);
    assert(exact_names()[78] == exact_names_3()[18]);
    assert(exact_names()[44] == exact_names_2()[4]);
    assert(exact_names()[61] == exact_names_3()[1]);
    assert(exact_names()[117] == exact_names_5()[17]);
    assert(exact_names()[37] == exact_names_1()[17]);
    assert(exact_names()[13] == exact_names_0()[13]);
    assert(passthrough_names()[27] == passthrough_names_1()[7]);
    assert(passthrough_names()[33] == passthrough_names_1()[13]);
    assert(passthrough_names()[38] == passthrough_names_1()[18]);
    assert(exact_names()[113] == exact_names_5()[13]);
    assert(exact_names()[12] == exact_names_0()[12]);
    assert(exact_names()[28] == exact_names_1()[8]);
    assert(exact_names()[88] == exact_names_4()[8]);
    assert(exact_names()[45] == exact_names_2()[5]);
    assert(exact_names()[4] == exact_names_0()[4]);
    assert(exact_names()[36] == exact_names_1()[16]);
    assert(exact_names()[52] == exact_names_2()[12]);
    assert(exact_names()[111] == exact_names_5()[11]);
    assert(exact_names()[17] == exact_names_0()[17]);
    assert(exact_names()[30] == exact_names_1()[10]);
    assert(exact_names()[124] == exact_names_6()[4]);
    assert(exact_names()[6] == exact_names_0()[6]);
    assert(exact_names()[118] == exact_names_5()[18]);
    assert(passthrough_names()[8] == passthrough_names_0()[8]);
    assert(passthrough_names()[32] == passthrough_names_1()[12]);
    assert(passthrough_names()[37] == passthrough_names_1()[17]);
    assert(exact_names()[69] == exact_names_3()[9]);
    assert(exact_names()[68] == exact_names_3()[8]);
    assert(exact_names()[53] == exact_names_2()[13]);
    assert(exact_names()[100] == exact_names_5()[0]);
    assert(exact_names()[87] == exact_names_4()[7]);
    assert(exact_names()[22] == exact_names_1()[2]);
    assert(exact_names()[32] == exact_names_1()[12]);
    assert(exact_names()[122] == exact_names_6()[2]);
    assert(exact_names()[20] == exact_names_1()[0]);
    assert(exact_names()[106] == exact_names_5()[6]);
    assert(exact_names()[105] == exact_names_5()[5]);
    assert(exact_names()[107] == exact_names_5()[7]);
}

/// None of these names is the member side of a membership.
pub proof fn lemma_no_member_sides()
    ensures
        !listed(member_side_names(), "owner"@),
        !listed(member_side_names(), "owningMembership"@),
        !listed(member_side_names(), "owningNamespace"@),
        !listed(member_side_names(), "ownedElement"@),
        !listed(member_side_names(), "ownedMembership"@),
        !listed(member_side_names(), "ownedMember"@),
        !listed(member_side_names(), "ownedImport"@),
        !listed(member_side_names(), "ownedFeatureMembership"@),
        !listed(member_side_names(), "ownedFeature"@),
        !listed(member_side_names(), "feature"@),
        !listed(member_side_names(), "input"@),
        !listed(member_side_names(), "output"@),
        !listed(member_side_names(), "directedFeature"@),
        !listed(member_side_names(), "parameter"@),
        !listed(member_side_names(), "endFeature"@),
        !listed(member_side_names(), "connectorEnd"@),
        !listed(member_side_names(), "ownedEndFeature"@),
        !listed(member_side_names(), "entryAction"@),
        !listed(member_side_names(), "doAction"@),
        !listed(member_side_names(), "exitAction"@),
        !listed(member_side_names(), "triggerAction"@),
        !listed(member_side_names(), "guardExpression"@),
        !listed(member_side_names(), "effectAction"@),
        !listed(member_side_names(), "subjectParameter"@),
        !listed(member_side_names(), "actorParameter"@),
        !listed(member_side_names(), "stakeholderParameter"@),
        !listed(member_side_names(), "objectiveRequirement"@),
        !listed(member_side_names(), "framedConcern"@),
        !listed(member_side_names(), "resultExpression"@),
        !listed(member_side_names(), "requiredConstraint"@),
        !listed(member_side_names(), "assumedConstraint"@),
        !listed(member_side_names(), "bound"@),
        !listed(member_side_names(), "lowerBound"@),
        !listed(member_side_names(), "upperBound"@),
        !listed(member_side_names(), "multiplicity"@),
        !listed(member_side_names(), "owningType"@),
        !listed(member_side_names(), "owningDefinition"@),
        !listed(member_side_names(), "owningUsage"@),
        !listed(member_side_names(), "owningFeatureMembership"@),
        !listed(member_side_names(), "membershipOwningNamespace"@),
        !listed(member_side_names(), "ownedMemberElement"@),
        !listed(member_side_names(), "unioningType"@),
        !listed(member_side_names(), "intersectingType"@),
        !listed(member_side_names(), "differencingType"@),
        !listed(member_side_names(), "relatedType"@),
        !listed(member_side_names(), "sourceType"@),
        !listed(member_side_names(), "targetType"@),
        !listed(member_side_names(), "type"@),
        !listed(member_side_names(), "definition"@),
        !listed(member_side_names(), "function"@),
        !listed(member_side_names(), "predicate"@),
        !listed(member_side_names(), "metaclass"@),
        !listed(member_side_names(), "association"@),
        !listed(member_side_names(), "interaction"@),
        !listed(member_side_names(), "ownedConjugator"@),
        !listed(member_side_names(), "thenAction"@),
        !listed(member_side_names(), "elseAction"@),
        !listed(member_side_names(), "ifArgument"@),
        !listed(member_side_names(), "whileArgument"@),
        !listed(member_side_names(), "bodyAction"@),
        !listed(member_side_names(), "untilArgument"@),
        !listed(member_side_names(), "exposedElement"@),
        !listed(member_side_names(), "sourceOutputFeature"@),
        !listed(member_side_names(), "targetInputFeature"@),
        !listed(member_side_names(), "ownedSpecialization"@),
        !listed(member_side_names(), "ownedReferenceSubsetting"@),
        !listed(member_side_names(), "ownedCrossSubsetting"@),
        !listed(member_side_names(), "satisfiedRequirement"@),
        !listed(member_side_names(), "performedAction"@),
        !listed(member_side_names(), "exhibitedState"@),
        !listed(member_side_names(), "importedElement"@),
        !listed(member_side_names(), "variant"@),
        !listed(member_side_names(), "enumeratedValue"@),
        !listed(member_side_names(), "succession"@),
        !listed(member_side_names(), "source"@),
        !listed(member_side_names(), "target"@),
{
    lemma_shapes();
    reveal(member_side_names_0);
    let names = member_side_names();
    assert(names.len() == 15);
    assert(names[0] == "action"@);
    assert(names[1] == "condition"@);
    assert(names[2] == "ownedActorParameter"@);
    assert(names[3] == "ownedConcern"@);
    assert(names[4] == "ownedConstraint"@);
    assert(names[5] == "ownedMemberParameter"@);
    assert(names[6] == "ownedObjectiveRequirement"@);
    assert(names[7] == "ownedRendering"@);
    assert(names[8] == "ownedRequirement"@);
    assert(names[9] == "ownedResultExpression"@);
    assert(names[10] == "ownedStakeholderParameter"@);
    assert(names[11] == "ownedSubjectParameter"@);
    assert(names[12] == "ownedVariantUsage"@);
    assert(names[13] == "transitionFeature"@);
    assert(names[14] == "value"@);
}

} // verus!
