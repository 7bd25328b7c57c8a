use std::collections::HashSet;

use sysmlv2_model::derived_table::{exact_names_list, is_hand_written, passthrough_names_list};
use sysmlv2_model::metamodel::{
    computed_names, derives, derives_under, is_owned_property, metaclass_conforms, metaclass_name,
    property_catalog, ClassProps, ClassSupers, ClosurePolicy, Composition, Derives, Metamodel,
    OwnedOn, PropertyRow, PropertyShape,
};

fn row(name: &'static str, shape: PropertyShape) -> PropertyRow {
    PropertyRow { name, shape }
}

/// A part of the abstract syntax.
fn metamodel() -> Metamodel {
    Metamodel {
        hierarchy: vec![
            ClassSupers { metaclass: "ActionUsage", supers: vec!["OccurrenceUsage", "Step"] },
            ClassSupers { metaclass: "Connector", supers: vec!["Feature", "Relationship"] },
            ClassSupers { metaclass: "Disjoining", supers: vec!["Relationship"] },
            ClassSupers { metaclass: "Element", supers: vec![] },
            ClassSupers { metaclass: "Feature", supers: vec!["Type"] },
            ClassSupers { metaclass: "FeatureChainExpression", supers: vec!["OperatorExpression"] },
            ClassSupers { metaclass: "Membership", supers: vec!["Relationship"] },
            ClassSupers { metaclass: "Namespace", supers: vec!["Element"] },
            ClassSupers { metaclass: "OccurrenceUsage", supers: vec!["Usage"] },
            ClassSupers { metaclass: "OperatorExpression", supers: vec!["Feature"] },
            ClassSupers { metaclass: "OwningMembership", supers: vec!["Membership"] },
            ClassSupers { metaclass: "Package", supers: vec!["Namespace"] },
            ClassSupers { metaclass: "PartUsage", supers: vec!["OccurrenceUsage"] },
            ClassSupers { metaclass: "Relationship", supers: vec!["Element"] },
            ClassSupers { metaclass: "StateSubactionMembership", supers: vec!["OwningMembership"] },
            ClassSupers { metaclass: "Step", supers: vec!["Feature"] },
            ClassSupers { metaclass: "Type", supers: vec!["Namespace"] },
            ClassSupers { metaclass: "Usage", supers: vec!["Feature"] },
        ],
        class_props: vec![
            ClassProps {
                metaclass: "Element",
                props: vec![
                    row("elementId", PropertyShape::Scalar),
                    row("name", PropertyShape::Nullable),
                ],
            },
            ClassProps {
                metaclass: "FeatureChainExpression",
                props: vec![
                    row("targetFeature", PropertyShape::RequiredReference),
                ],
            },
            ClassProps {
                metaclass: "Package",
                props: vec![
                    row("declaredName", PropertyShape::Nullable),
                    row("name", PropertyShape::Nullable),
                    row("ownedMember", PropertyShape::Array),
                    row("ownedRelationship", PropertyShape::Array),
                ],
            },
            ClassProps {
                metaclass: "PartUsage",
                props: vec![
                    row("action", PropertyShape::Array),
                    row("declaredName", PropertyShape::Nullable),
                    row("feature", PropertyShape::Array),
                    row("isAbstract", PropertyShape::Boolean),
                    row("nestedPart", PropertyShape::Array),
                    row("nestedUsage", PropertyShape::Array),
                    row("ownedDisjoining", PropertyShape::Array),
                    row("ownedFeature", PropertyShape::Array),
                    row("ownedRelationship", PropertyShape::Array),
                    row("usage", PropertyShape::Array),
                ],
            },
            ClassProps {
                metaclass: "StateSubactionMembership",
                props: vec![
                    row("action", PropertyShape::RequiredReference),
                    row("kind", PropertyShape::Enumeration),
                    row("source", PropertyShape::Array),
                    row("usage", PropertyShape::Array),
                ],
            },
        ],
        abstract_metaclasses: vec!["Element"],
        derived_names: vec![
            "action",
            "actorParameter",
            "annotatedElement",
            "annotatingElement",
            "annotation",
            "argument",
            "assertedConstraint",
            "association",
            "associationEnd",
            "assumedConstraint",
            "bodyAction",
            "bound",
            "chainingFeature",
            "condition",
            "conjugatedPortDefinition",
            "connectionEnd",
            "connectorEnd",
            "crossFeature",
            "crossingFeature",
            "defaultFeaturingType",
            "definition",
            "differencingType",
            "directedFeature",
            "doAction",
            "documentedElement",
            "effectAction",
            "elseAction",
            "endFeature",
            "endOwningType",
            "entryAction",
            "enumeratedValue",
            "eventOccurrence",
            "exhibitedState",
            "exitAction",
            "exposedElement",
            "expression",
            "feature",
            "featureChained",
            "featureMembership",
            "featureTarget",
            "featureWithValue",
            "featuringType",
            "filterCondition",
            "framedConcern",
            "function",
            "guardExpression",
            "ifArgument",
            "importOwningNamespace",
            "importedElement",
            "importedMembership",
            "includedUseCase",
            "individualDefinition",
            "inheritedFeature",
            "inheritedMembership",
            "input",
            "instantiatedType",
            "interaction",
            "interfaceEnd",
            "intersectingType",
            "isConjugated",
            "isLibraryElement",
            "isModelLevelEvaluable",
            "isReference",
            "loopVariable",
            "lowerBound",
            "member",
            "memberElementId",
            "membership",
            "membershipOwningNamespace",
            "metaclass",
            "multiplicity",
            "name",
            "nestedPart",
            "nestedUsage",
            "objectiveRequirement",
            "originalPortDefinition",
            "output",
            "ownedActorParameter",
            "ownedAnnotatingElement",
            "ownedAnnotatingRelationship",
            "ownedAnnotation",
            "ownedConcern",
            "ownedConjugator",
            "ownedConstraint",
            "ownedCrossSubsetting",
            "ownedDisjoining",
            "ownedElement",
            "ownedEndFeature",
            "ownedFeature",
            "ownedFeatureInverting",
            "ownedFeatureMembership",
            "ownedImport",
            "ownedMember",
            "ownedMemberElement",
            "ownedMemberElementId",
            "ownedMemberFeature",
            "ownedMemberName",
            "ownedMemberParameter",
            "ownedMemberShortName",
            "ownedMembership",
            "ownedObjectiveRequirement",
            "ownedPortConjugator",
            "ownedReferenceSubsetting",
            "ownedRendering",
            "ownedRequirement",
            "ownedResultExpression",
            "ownedSpecialization",
            "ownedStakeholderParameter",
            "ownedSubjectParameter",
            "ownedTypeFeaturing",
            "ownedVariantUsage",
            "owner",
            "owningAnnotatedElement",
            "owningAnnotatingElement",
            "owningAnnotatingRelationship",
            "owningClassifier",
            "owningDefinition",
            "owningFeature",
            "owningFeatureMembership",
            "owningFeatureOfType",
            "owningMembership",
            "owningNamespace",
            "owningType",
            "owningUsage",
            "parameter",
            "payloadArgument",
            "payloadFeature",
            "payloadParameter",
            "payloadType",
            "performedAction",
            "predicate",
            "qualifiedName",
            "receiverArgument",
            "referencedConcern",
            "referencedConstraint",
            "referencedElement",
            "referencedRendering",
            "referencingFeature",
            "referent",
            "relatedElement",
            "relatedFeature",
            "relatedType",
            "representedElement",
            "requiredConstraint",
            "result",
            "resultExpression",
            "satisfiedRequirement",
            "satisfiedViewpoint",
            "satisfyingFeature",
            "senderArgument",
            "seqArgument",
            "shortName",
            "source",
            "sourceFeature",
            "sourceOutputFeature",
            "sourceType",
            "stakeholderParameter",
            "subjectParameter",
            "succession",
            "target",
            "targetArgument",
            "targetFeature",
            "targetInputFeature",
            "targetType",
            "terminatedOccurrenceArgument",
            "text",
            "thenAction",
            "transitionFeature",
            "triggerAction",
            "type",
            "typeDifferenced",
            "typeIntersected",
            "typeUnioned",
            "unioningType",
            "untilArgument",
            "upperBound",
            "usage",
            "useCaseIncluded",
            "value",
            "valueExpression",
            "variant",
            "verifiedRequirement",
            "viewCondition",
            "viewRendering",
            "viewpointStakeholder",
            "whileArgument",
        ],
        owned_on: vec![OwnedOn { name: "source", classes: vec!["StateSubactionMembership"] }],
        compositions: vec![
            Composition { name: "action", base: "usage", kind: "ActionUsage", single: false },
            Composition { name: "nestedPart", base: "nestedUsage", kind: "PartUsage", single: false },
            Composition { name: "nestedUsage", base: "ownedFeature", kind: "Usage", single: false },
            Composition { name: "ownedDisjoining", base: "ownedRelationship", kind: "Disjoining", single: false },
            Composition { name: "usage", base: "feature", kind: "Usage", single: false },
        ],
    }
}

#[test]
fn catalog_is_sorted() {
    let mm = metamodel();
    assert!(mm.class_props.windows(2).all(|w| w[0].metaclass < w[1].metaclass));
    for class in &mm.class_props {
        assert!(
            class.props.windows(2).all(|w| w[0].name < w[1].name),
            "{}'s property list is not sorted",
            class.metaclass
        );
    }
    assert!(mm.derived_names.windows(2).all(|w| w[0] < w[1]));
}

#[test]
fn hand_written_tables_are_sorted() {
    assert!(exact_names_list().windows(2).all(|w| w[0] < w[1]));
    assert!(passthrough_names_list().windows(2).all(|w| w[0] < w[1]));
    let mut seen = HashSet::new();
    for n in computed_names(&metamodel()) {
        assert!(seen.insert(n), "{n} listed twice");
    }
}

#[test]
fn composition_fidelity_follows_the_declared_base_chain() {
    let mm = metamodel();
    for class in &mm.class_props {
        let m = class.metaclass;
        for name in computed_names(&mm) {
            if !matches!(derives(&mm, m, name), Derives::Exact | Derives::Passthrough) {
                continue;
            }
            if mm.member_side(m, name).is_some() {
                continue;
            }
            let mut at = name;
            while let Some(c) = mm.composition(at).filter(|_| !is_hand_written(at)) {
                let base = c.base;
                if base == "ownedRelationship" {
                    assert!(mm.carries(m, base), "{m}.{name}: owned base {base} not carried");
                    break;
                }
                assert!(mm.declared(m, base), "{m}.{name}: base {base} not declared");
                at = base;
            }
        }
    }
}

#[test]
fn computed_names_are_declared_somewhere() {
    let mm = metamodel();
    for name in computed_names(&mm) {
        assert!(
            mm.derived_names.binary_search(&name).is_ok(),
            "{name} is not a derived name"
        );
    }
}

#[test]
fn fidelity_is_decided_per_metaclass() {
    let mm = metamodel();
    assert_eq!(derives(&mm, "PartUsage", "ownedFeature"), Derives::Exact);
    assert_eq!(derives(&mm, "PartUsage", "feature"), Derives::Passthrough);
    assert_eq!(derives(&mm, "PartUsage", "usage"), Derives::Passthrough);
    assert_eq!(derives(&mm, "PartUsage", "nestedPart"), Derives::Exact);
    assert_eq!(derives(&mm, "PartUsage", "ownedDisjoining"), Derives::Exact);
    assert_eq!(derives(&mm, "PartUsage", "isAbstract"), Derives::NotDeclared);
    assert_eq!(derives(&mm, "Package", "feature"), Derives::NotDeclared);
    // A composition over a base the metaclass does not derive.
    assert_eq!(derives(&mm, "StateSubactionMembership", "usage"), Derives::NotComputed);
    // The owned member under the membership kind's own name.
    assert_eq!(derives(&mm, "StateSubactionMembership", "action"), Derives::Exact);
    assert_eq!(derives(&mm, "StateSubactionMembership", "source"), Derives::NotDeclared);
    // One name, two properties.
    assert_eq!(derives(&mm, "FeatureChainExpression", "targetFeature"), Derives::Exact);
}

#[test]
fn the_full_closure_makes_owned_side_names_exact() {
    let mm = metamodel();
    let full = ClosurePolicy::Closure { include_implied: true };
    let written = ClosurePolicy::Closure { include_implied: false };
    assert_eq!(full.include_implied(), Some(true));
    assert_eq!(ClosurePolicy::Passthrough.include_implied(), None);
    assert_eq!(derives_under(&mm, "PartUsage", "feature", full), Derives::Exact);
    assert_eq!(derives_under(&mm, "PartUsage", "feature", written), Derives::Passthrough);
    assert_eq!(derives_under(&mm, "PartUsage", "ownedFeature", written), Derives::Exact);
}

#[test]
fn conformance_follows_the_hierarchy() {
    let mm = metamodel();
    assert!(metaclass_conforms(&mm, "PartUsage", "Usage"));
    assert!(metaclass_conforms(&mm, "PartUsage", "Feature"));
    assert!(metaclass_conforms(&mm, "PartUsage", "Element"));
    assert!(metaclass_conforms(&mm, "ActionUsage", "Step"));
    assert!(!metaclass_conforms(&mm, "Usage", "PartUsage"));
    assert!(metaclass_conforms(&mm, "Unknown", "Unknown"));
    assert_eq!(metaclass_name(&mm, "PartUsage"), Some("PartUsage"));
    assert_eq!(metaclass_name(&mm, "Unknown"), None);
}

#[test]
fn the_catalog_lists_concrete_metaclasses() {
    let mm = metamodel();
    let rows = property_catalog(&mm);
    assert_eq!(rows.len(), 19);
    assert_eq!(rows[0].metaclass, "FeatureChainExpression");
    assert!(rows.iter().all(|r| r.metaclass != "Element"));
    let name = rows.iter().find(|r| r.metaclass == "Package" && r.property == "declaredName").unwrap();
    assert!(name.owned);
    assert_eq!(name.shape, PropertyShape::Nullable);
    assert!(is_owned_property(&mm, "Package", "declaredName"));
    assert!(!is_owned_property(&mm, "Package", "name"));
    assert!(!is_owned_property(&mm, "Package", "isAbstract"));
}
