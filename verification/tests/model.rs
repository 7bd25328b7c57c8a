use std::rc::Rc;

use sysmlv2_model::ast::{
    Comment, DefKind, Definition, DefinitionPrefix, Dialect, Documentation, Expr, ExprKind,
    FeatureDeclaration, FeatureSpecialization, Identification, Import, Literal, Member, MemberKind,
    ModelUnit, Name, Package, QualifiedName, SourceUnit, Span, TargetRef, TypeRef, Usage,
    UsageDetail, UsageKind, UsagePrefix, Visibility, Alias, ConnectorEnd, Dependency,
    StateSubactionKind,
};
use sysmlv2_model::closures::{Closures, Walked};
use sysmlv2_model::compact::{
    build_unit, library_to_compact_json_with_units, model_resolution_report,
    model_to_compact_json_with_units, to_compact_json,
};
use sysmlv2_model::derive_base::{Derivation, Reference};
use sysmlv2_model::derived::{Derived, DerivedValue};
use sysmlv2_model::elements::BodyFlowMember;
use sysmlv2_model::implied::NamedId;
use sysmlv2_model::libcache::LibraryCache;
use sysmlv2_model::linker::Linker;
use sysmlv2_model::metamodel::{
    computable_names, ClassProps, ClosurePolicy, ClassSupers, Composition, Metamodel, PropertyRow, PropertyShape,
};
use sysmlv2_model::model_build::{build_model, Built, CacheSlot};
use sysmlv2_model::props::{Link, Props, Value};
use sysmlv2_model::artifact::{library_element_name_map, library_name_map, resolver_tables};
use uuid::Uuid;

fn at(start: u32, end: u32) -> Span {
    Span { start, end }
}

fn qn(text: &str, start: u32) -> QualifiedName {
    let mut segments = Vec::new();
    let mut pos = start;
    for part in text.split("::") {
        let len = part.len() as u32;
        segments.push(Name { value: part.to_string(), span: at(pos, pos + len) });
        pos += len + 2;
    }
    QualifiedName { is_global: false, segments, span: at(start, start + text.len() as u32) }
}

fn id(name: &str) -> Identification {
    Identification {
        name: Some(Name { value: name.to_string(), span: at(0, 0) }),
        short_name: None,
    }
}

fn no_id() -> Identification {
    Identification { name: None, short_name: None }
}

fn member(kind: MemberKind) -> Member {
    Member {
        kind,
        visibility: None,
        leading_then: false,
        leading_then_multiplicity: None,
        span: at(0, 0),
    }
}

fn package(name: &str, body: Vec<Member>) -> Member {
    member(MemberKind::Package(Package {
        id: id(name),
        metadata: vec![],
        is_namespace: false,
        is_library: false,
        is_standard: false,
        body: Some(body),
    }))
}

fn library(name: &str, body: Vec<Member>) -> Member {
    member(MemberKind::Package(Package {
        id: id(name),
        metadata: vec![],
        is_namespace: false,
        is_library: true,
        is_standard: false,
        body: Some(body),
    }))
}

fn def(kind: DefKind, name: &str, specializes: &[&str], body: Vec<Member>) -> Member {
    member(MemberKind::Definition(Definition {
        kind,
        id: id(name),
        prefix: DefinitionPrefix {
            metadata: vec![],
            is_abstract: false,
            is_variation: false,
            is_individual: false,
        },
        is_sufficient: false,
        is_parallel: false,
        multiplicity: None,
        specializes: specializes.iter().map(|s| TargetRef::Name(qn(s, 0))).collect(),
        conjugates: vec![],
        disjoint_from: vec![],
        unions: vec![],
        intersects: vec![],
        differences: vec![],
        body: Some(body),
    }))
}

fn part_def(name: &str) -> Member {
    def(DefKind::Part, name, &[], vec![])
}

fn prefix() -> UsagePrefix {
    UsagePrefix {
        direction: None,
        is_derived: false,
        is_abstract: false,
        is_variation: false,
        is_constant: false,
        is_end: false,
        is_ref: false,
        is_individual: false,
        portion: None,
        is_variant: false,
        metadata: vec![],
        end_cross: None,
        is_composite: false,
        is_portion: false,
        is_variable: false,
        is_type_member: false,
    }
}

fn declaration(ident: Identification, specializations: Vec<FeatureSpecialization>) -> FeatureDeclaration {
    FeatureDeclaration {
        id: ident,
        specializations,
        multiplicity: None,
        is_ordered: false,
        is_nonunique: false,
        is_sufficient: false,
        conjugates: None,
        chains: None,
        inverse_of: None,
        featured_by: vec![],
        disjoint_from: vec![],
        unions: vec![],
        intersects: vec![],
        differences: vec![],
    }
}

fn typed_by(ty: &str, start: u32) -> FeatureSpecialization {
    FeatureSpecialization::TypedBy(vec![TypeRef {
        target: TargetRef::Name(qn(ty, start)),
        is_conjugated: false,
    }])
}

fn usage_of(kind: UsageKind, ident: Identification, specs: Vec<FeatureSpecialization>, detail: UsageDetail, body: Vec<Member>) -> Usage {
    Usage {
        kind,
        prefix: prefix(),
        declaration: declaration(ident, specs),
        value: None,
        detail,
        is_parallel: false,
        body: Some(body),
    }
}

fn usage(kind: UsageKind, name: &str, specs: Vec<FeatureSpecialization>, body: Vec<Member>) -> Member {
    member(MemberKind::Usage(usage_of(kind, id(name), specs, UsageDetail::Plain, body)))
}

fn part(name: &str, ty: &str) -> Member {
    usage(UsageKind::Part, name, vec![typed_by(ty, 50)], vec![])
}

fn import(target: &str, namespace: bool, visibility: Visibility, span: Span) -> Member {
    Member {
        kind: MemberKind::Import(Import {
            target: qn(target, span.start),
            is_namespace: namespace,
            is_recursive: false,
            is_import_all: false,
            filters: vec![],
        }),
        visibility: Some(visibility),
        leading_then: false,
        leading_then_multiplicity: None,
        span,
    }
}

fn literal(value: bool, start: u32) -> Rc<Expr> {
    Rc::new(Expr { kind: ExprKind::Literal(Literal::Bool(value)), span: at(start, start + 4) })
}

fn unit(members: Vec<Member>) -> SourceUnit {
    SourceUnit { dialect: Dialect::Sysml, members }
}

fn model_unit(name: &str, is_library: bool, members: Vec<Member>) -> ModelUnit {
    ModelUnit { name: name.to_string(), unit: unit(members), is_library }
}

fn str_of<'a>(p: &'a Props, key: &str) -> Option<&'a str> {
    match p.get(key) {
        Some(Value::Str(s)) => Some(s),
        _ => None,
    }
}

fn named<'a>(all: &'a [Props], name: &str) -> &'a Props {
    all.iter().find(|p| str_of(p, "declaredName") == Some(name)).unwrap()
}

fn of_type<'a>(all: &'a [Props], ty: &str) -> Vec<&'a Props> {
    all.iter().filter(|p| str_of(p, "@type") == Some(ty)).collect()
}

fn id_of(p: &Props) -> u128 {
    Uuid::parse_str(str_of(p, "@id").unwrap()).unwrap().as_u128()
}

fn v5(namespace: u128, name: &str) -> u128 {
    Uuid::new_v5(&Uuid::from_u128(namespace), name.as_bytes()).as_u128()
}

fn index_of(l: &Linker, name: &str) -> usize {
    (0..l.res.graph.elements.len())
        .find(|&e| l.res.graph.effective_name(e).as_deref() == Some(name))
        .unwrap()
}

/// What the properties of the compact form come to, in a comparable shape.
fn spelled(all: &[Props]) -> Vec<Vec<(String, String)>> {
    all.iter()
        .map(|p| {
            let mut rows: Vec<(String, String)> = p
                .pairs
                .iter()
                .map(|(k, v)| {
                    let text = match v {
                        Value::Null => "null".to_string(),
                        Value::Bool(b) => format!("{b}"),
                        Value::Int(n) => format!("{n}"),
                        Value::Real(s) | Value::Str(s) => format!("{s:?}"),
                        Value::Ref(l) => link_text(l),
                        Value::List(ls) => ls.iter().map(link_text).collect::<Vec<_>>().join(","),
                    };
                    (k.to_string(), text)
                })
                .collect();
            rows.sort();
            rows
        })
        .collect()
}

fn link_text(l: &Link) -> String {
    match l {
        Link::Id(id) => format!("{}", Uuid::from_u128(*id)),
        Link::Name(s) => format!("@{s}"),
    }
}

#[test]
fn elements_carry_chained_ids_and_their_place() {
    let all = to_compact_json(&unit(vec![package("P", vec![part_def("A"), part("a", "A")])]));
    let root = &all[0];
    assert_eq!(str_of(root, "@type"), Some("Namespace"));
    let namespace = v5(Uuid::NAMESPACE_URL.as_u128(), "https://crates.io/crates/sysmlv2-parser");
    assert_eq!(id_of(root), v5(namespace, "$root"));
    let p = named(&all, "P");
    assert_eq!(str_of(p, "@type"), Some("Package"));
    assert_eq!(id_of(p), v5(id_of(root), "::P"));
    let a = named(&all, "A");
    assert_eq!(str_of(a, "@type"), Some("PartDefinition"));
    assert_eq!(id_of(a), v5(id_of(p), "::A"));
    // The membership is named by its member.
    let owning = match a.get("owningRelationship") {
        Some(Value::Ref(Link::Id(x))) => *x,
        _ => panic!("no owning relationship"),
    };
    assert_eq!(owning, v5(id_of(a), "m"));
    assert_eq!(str_of(a, "elementId"), str_of(a, "@id"));
    assert!(matches!(a.get("isImpliedIncluded"), Some(Value::Bool(false))));
    assert!(matches!(root.get("owningRelationship"), Some(Value::Null)));
    match p.get("ownedRelationship") {
        Some(Value::List(ls)) => assert_eq!(ls.len(), 2),
        _ => panic!("no owned relationships"),
    }
}

#[test]
fn references_resolve_to_ids_or_keep_their_spelling() {
    let all = to_compact_json(&unit(vec![package(
        "P",
        vec![part_def("A"), part("a", "A"), part("b", "Missing::Thing")],
    )]));
    let target = id_of(named(&all, "A"));
    let typings = of_type(&all, "FeatureTyping");
    assert_eq!(typings.len(), 2);
    assert!(matches!(typings[0].get("type"), Some(Value::Ref(Link::Id(x))) if *x == target));
    assert!(matches!(typings[1].get("type"), Some(Value::Ref(Link::Name(s))) if s == "Missing::Thing"));
}

#[test]
fn reference_sites_are_recorded_in_source_order() {
    let l = build_unit(&unit(vec![
        package("D", vec![part_def("A")]),
        package(
            "U",
            vec![
                usage(UsageKind::Part, "y", vec![typed_by("D::A", 90)], vec![]),
                usage(UsageKind::Part, "x", vec![typed_by("D::A", 40)], vec![]),
            ],
        ),
    ]));
    let a = index_of(&l, "A");
    let d = index_of(&l, "D");
    let spans: Vec<(u32, &str)> = l.sites.iter().map(|s| (s.name_span.start, s.kind)).collect();
    assert_eq!(spans, vec![(40, "qualifier"), (43, "type"), (90, "qualifier"), (93, "type")]);
    assert_eq!(l.references_to(a).len(), 2);
    assert_eq!(l.references_to(d).len(), 2);
    assert!(l.references_to(a).iter().all(|s| s.plain && s.chain_root.is_none()));
    assert_eq!(l.unresolved_count(), 0);
}

#[test]
fn specializations_are_inherited_by_name() {
    // part def B :> A, and `leg` is found through A.
    let l = build_unit(&unit(vec![package(
        "P",
        vec![
            def(DefKind::Part, "A", &[], vec![usage(UsageKind::Part, "leg", vec![], vec![])]),
            def(
                DefKind::Part,
                "B",
                &["A"],
                vec![usage(
                    UsageKind::Part,
                    "left",
                    vec![FeatureSpecialization::Subsets(vec![TargetRef::Name(qn("leg", 30))])],
                    vec![],
                )],
            ),
        ],
    )]));
    assert_eq!(l.unresolved_count(), 0);
    let leg = index_of(&l, "leg");
    assert!(l.references_to(leg).iter().any(|s| s.kind == "subsettedFeature"));
}

#[test]
fn the_report_lists_what_did_not_resolve() {
    let units = vec![model_unit(
        "u.sysml",
        false,
        vec![
            package(
                "A",
                vec![
                    import("B", true, Visibility::Public, at(0, 10)),
                    part("x", "Nowhere"),
                    member(MemberKind::Alias(Alias { id: id("z"), target: qn("Gone", 70) })),
                ],
            ),
            package("B", vec![import("A", true, Visibility::Public, at(20, 30))]),
        ],
    )];
    let report = model_resolution_report(&units, CacheSlot::Off);
    assert!(report.unresolved.iter().any(|r| r.qn.segments[0].value == "Nowhere" && r.unit == 0));
    assert!(report.ambiguous.is_empty());
    assert_eq!(report.unresolved_aliases.len(), 1);
    assert_eq!(report.unresolved_aliases[0].qn.segments[0].value, "Gone");
    assert_eq!(report.import_cycles.len(), 2);
}

#[test]
fn two_candidates_of_one_precedence_are_ambiguous() {
    let units = vec![model_unit(
        "u.sysml",
        false,
        vec![
            package("A", vec![part_def("T")]),
            package("B", vec![part_def("T")]),
            package(
                "U",
                vec![
                    import("A", true, Visibility::Private, at(0, 10)),
                    import("B", true, Visibility::Private, at(20, 30)),
                    part("x", "T"),
                ],
            ),
        ],
    )];
    let report = model_resolution_report(&units, CacheSlot::Off);
    assert_eq!(report.ambiguous.len(), 1);
    assert_eq!(report.ambiguous[0].qn.segments[0].value, "T");
}

fn with_library() -> Vec<ModelUnit> {
    vec![
        model_unit("user.sysml", false, vec![package("U", vec![part("x", "Lib::Base")])]),
        model_unit(
            "lib.sysml",
            true,
            vec![library("Lib", vec![part_def("Base"), def(DefKind::Part, "More", &["Base"], vec![])])],
        ),
    ]
}

#[test]
fn library_elements_have_name_based_ids() {
    let (all, rows) = library_to_compact_json_with_units(&with_library(), CacheSlot::Off);
    let top = v5(Uuid::NAMESPACE_URL.as_u128(), "https://www.omg.org/spec/SysML/Lib");
    assert_eq!(id_of(named(&all, "Lib")), top);
    assert_eq!(id_of(named(&all, "Base")), v5(top, "Lib::Base"));
    assert_eq!(id_of(&all[0]), v5(top, ""));
    assert_eq!(rows.len(), 1);
    assert_eq!((rows[0].start, rows[0].name.as_str()), (0, "lib.sysml"));
    let (user, rows) = model_to_compact_json_with_units(&with_library(), CacheSlot::Off);
    assert_eq!((rows[0].start, rows[0].name.as_str()), (0, "user.sysml"));
    let typing = of_type(&user, "FeatureTyping");
    assert!(matches!(typing[0].get("type"), Some(Value::Ref(Link::Id(x))) if *x == v5(top, "Lib::Base")));
    assert!(user.iter().all(|p| str_of(p, "declaredName") != Some("Base")));
}

#[test]
fn a_replayed_library_gives_the_same_compact_form() {
    let (cold, _) = build_model(&with_library(), CacheSlot::Record);
    let cache = cold.recorded.unwrap();
    assert!(!cache.outcomes.is_empty());
    let bytes = cache.to_bytes("0.1+a");
    let read = LibraryCache::from_bytes(&bytes, "0.1+a").unwrap();
    let (_, stale) = build_model(&with_library(), CacheSlot::Replay(read));
    assert!(!stale);
    let read = LibraryCache::from_bytes(&bytes, "0.1+a").unwrap();
    let (warm, _) = model_to_compact_json_with_units(&with_library(), CacheSlot::Replay(read));
    let (plain, _) = model_to_compact_json_with_units(&with_library(), CacheSlot::Off);
    assert_eq!(spelled(&warm), spelled(&plain));
    let read = LibraryCache::from_bytes(&bytes, "0.1+a").unwrap();
    let (warm, _) = library_to_compact_json_with_units(&with_library(), CacheSlot::Replay(read));
    let (plain, _) = library_to_compact_json_with_units(&with_library(), CacheSlot::Off);
    assert_eq!(spelled(&warm), spelled(&plain));
}

#[test]
fn a_cache_of_another_library_is_stale() {
    let (cold, _) = build_model(&with_library(), CacheSlot::Record);
    let cache = cold.recorded.unwrap();
    let mut units = with_library();
    units[1] = model_unit("lib.sysml", true, vec![library("Lib", vec![part_def("Base")])]);
    let (built, stale) = build_model(&units, CacheSlot::Replay(cache));
    assert!(stale);
    assert!(built.recorded.is_none());
}

#[test]
fn a_shadowing_user_name_disables_replay() {
    let (cold, _) = build_model(&with_library(), CacheSlot::Record);
    let cache = cold.recorded.unwrap();
    let mut units = with_library();
    units.push(model_unit("more.sysml", false, vec![package("Lib", vec![])]));
    let (_, stale) = build_model(&units, CacheSlot::Replay(cache));
    assert!(!stale);
}

#[test]
fn library_names_stand_for_one_element() {
    let (built, _) = build_model(&with_library(), CacheSlot::Off);
    let tables = resolver_tables(&built.qnames);
    let mut names: Vec<&str> = tables.inverse.iter().map(|n| n.name.as_str()).collect();
    names.sort();
    assert_eq!(names, vec!["Lib", "Lib::Base", "Lib::More"]);
    assert!(tables.collisions.is_empty());
}

#[test]
fn unused_private_imports_feed_nothing() {
    let units = vec![model_unit(
        "u.sysml",
        false,
        vec![
            package("D", vec![part_def("A")]),
            package("E", vec![part_def("B")]),
            package("F", vec![part_def("C")]),
            package(
                "U",
                vec![
                    import("D", true, Visibility::Private, at(100, 120)),
                    import("E", true, Visibility::Private, at(130, 150)),
                    import("F", true, Visibility::Public, at(160, 180)),
                    usage(UsageKind::Part, "x", vec![typed_by("A", 200)], vec![]),
                ],
            ),
        ],
    )];
    let (built, _) = build_model(&units, CacheSlot::Off);
    let unused = built.linker.unused_private_imports();
    assert_eq!(unused.len(), 1);
    assert_eq!(unused[0].span, at(130, 150));
    assert_eq!(unused[0].target, index_of(&built.linker, "E"));
}

#[test]
fn namespace_index_preserves_wide_traversal_cutoff() {
    let packages: Vec<Member> = (0..12)
        .map(|p| {
            package(&format!("P{p}"), (0..400).map(|e| part_def(&format!("E{e}"))).collect())
        })
        .collect();
    let units = vec![model_unit("wide.sysml", false, vec![package("Defs", packages)])];
    let (built, _) = build_model(&units, CacheSlot::Off);
    let mut linker = built.linker;
    let target = linker.resolve_qualified("Defs").unwrap();
    let found = linker.res.graph.namespace_member_names(target);
    assert!(found.len() >= 4096);
    assert!(found.len() < 4813);
    assert_eq!(found[0], "Defs");
    assert_eq!(found[1], "P11");
    assert_eq!(found[2], "E399");
}

#[test]
fn paths_address_private_members_and_quoted_names() {
    let mut hidden = part_def("two words");
    hidden.visibility = Some(Visibility::Private);
    let mut l = build_unit(&unit(vec![package("P", vec![hidden, part_def("A")])]));
    let a = index_of(&l, "A");
    let two = index_of(&l, "two words");
    assert_eq!(l.resolve_qualified("P::A"), Some(a));
    assert_eq!(l.resolve_qualified("P::'two words'"), Some(two));
    assert_eq!(l.resolve_qualified("P::B"), None);
    assert_eq!(l.resolve_qualified(""), None);
    assert_eq!(l.res.graph.element_qualified_name(two).as_deref(), Some("P::'two words'"));
}

#[test]
fn asserted_constraints_take_the_nearest_body() {
    let result = |start| member(MemberKind::Result(literal(true, start)));
    let assert_usage = member(MemberKind::Usage(usage_of(
        UsageKind::AssertConstraint,
        id("held"),
        vec![typed_by("C", 80)],
        UsageDetail::Assert { negated: true },
        vec![],
    )));
    let mut l = build_unit(&unit(vec![package(
        "P",
        vec![
            assert_usage,
            usage(UsageKind::Constraint, "own", vec![], vec![result(30)]),
            def(DefKind::Constraint, "C", &[], vec![result(10)]),
        ],
    )]));
    let all = l.constraints();
    let seen: Vec<(u32, Option<&str>, bool, bool)> = all
        .iter()
        .map(|c| (c.span.start, c.name.as_deref(), c.asserted, c.negated))
        .collect();
    assert_eq!(
        seen,
        vec![
            (10, Some("C"), false, false),
            (10, Some("held"), true, true),
            (30, Some("own"), false, false),
        ]
    );
}

#[test]
fn satisfactions_collect_the_constraints_of_a_requirement() {
    let require = member(MemberKind::RequirementConstraint {
        kind: sysmlv2_model::ast::RequirementConstraintKind::Requirement,
        usage: usage_of(
            UsageKind::Constraint,
            id("limit"),
            vec![],
            UsageDetail::Plain,
            vec![member(MemberKind::Result(literal(true, 15)))],
        ),
    });
    let requirement = usage(UsageKind::Requirement, "r", vec![], vec![require]);
    let satisfy = member(MemberKind::Usage(usage_of(
        UsageKind::Satisfy,
        no_id(),
        vec![FeatureSpecialization::References(TargetRef::Name(qn("r", 60)))],
        UsageDetail::Satisfy {
            asserted: true,
            negated: false,
            by: Some(TargetRef::Name(qn("x", 70))),
        },
        vec![],
    )));
    let mut l = build_unit(&unit(vec![package(
        "P",
        vec![requirement, usage(UsageKind::Part, "x", vec![], vec![]), satisfy],
    )]));
    let x = index_of(&l, "x");
    let claims = l.satisfactions();
    assert_eq!(claims.len(), 1);
    assert_eq!(claims[0].bound, x);
    assert_eq!(claims[0].context.as_deref(), Some("P::r"));
    assert_eq!(claims[0].constraints.len(), 1);
    assert_eq!(claims[0].constraints[0].name.as_deref(), Some("limit"));
}

fn metamodel() -> Metamodel {
    let row = |name, shape| PropertyRow { name, shape };
    let class = |metaclass, supers: &[&'static str]| ClassSupers { metaclass, supers: supers.to_vec() };
    let array = |name| row(name, PropertyShape::Array);
    let one = |name| row(name, PropertyShape::Nullable);
    Metamodel {
        hierarchy: vec![
            class("Element", &[]),
            class("Relationship", &["Element"]),
            class("Membership", &["Relationship"]),
            class("OwningMembership", &["Membership"]),
            class("FeatureMembership", &["OwningMembership"]),
            class("Namespace", &["Element"]),
            class("Package", &["Namespace"]),
            class("Type", &["Namespace"]),
            class("Classifier", &["Type"]),
            class("Definition", &["Classifier"]),
            class("PartDefinition", &["Definition"]),
            class("Feature", &["Type"]),
            class("Usage", &["Feature"]),
            class("PartUsage", &["Usage"]),
            class("Specialization", &["Relationship"]),
            class("Subsetting", &["Specialization"]),
            class("FeatureTyping", &["Specialization"]),
            class("Subclassification", &["Specialization"]),
        ],
        class_props: vec![
            ClassProps {
                metaclass: "PartDefinition",
                props: vec![
                    array("member"),
                    one("name"),
                    array("nestedPart"),
                    array("ownedFeature"),
                    array("ownedSpecialization"),
                    one("owner"),
                    one("qualifiedName"),
                ],
            },
            ClassProps {
                metaclass: "PartUsage",
                props: vec![
                    one("isReference"),
                    one("name"),
                    one("owningType"),
                    array("partDefinition"),
                    one("qualifiedName"),
                    array("type"),
                ],
            },
        ],
        abstract_metaclasses: vec![],
        derived_names: vec![
            "isReference",
            "member",
            "name",
            "nestedPart",
            "ownedFeature",
            "ownedSpecialization",
            "owner",
            "owningType",
            "partDefinition",
            "qualifiedName",
            "type",
        ],
        owned_on: vec![],
        compositions: vec![
            Composition { name: "nestedPart", base: "ownedFeature", kind: "PartUsage", single: false },
            Composition { name: "partDefinition", base: "type", kind: "PartDefinition", single: false },
        ],
    }
}

fn no_walks(n: usize) -> Walked {
    Walked {
        inherited: vec![vec![]; n],
        members: vec![vec![]; n],
        aliases: vec![vec![]; n],
        heritage_cut: vec![false; n],
        imports_cut: vec![false; n],
    }
}

fn no_closures(built: &Built) -> Closures {
    let n = built.linker.res.graph.elements.len();
    Closures { written: no_walks(n), implied: no_walks(n) }
}

fn derivation(members: Vec<Member>) -> Derivation {
    let units = vec![model_unit("u.sysml", false, members)];
    let (built, _) = build_model(&units, CacheSlot::Off);
    let none: Vec<NamedId> = vec![];
    let closures = no_closures(&built);
    Derivation::new(built, metamodel(), &none, vec![], closures)
}

fn find(d: &Derivation, name: &str) -> usize {
    (0..d.graph.elements.len())
        .find(|&e| d.graph.effective_name(e).as_deref() == Some(name))
        .unwrap()
}

fn vehicle() -> Derivation {
    derivation(vec![package(
        "P",
        vec![
            part_def("Wheel"),
            def(
                DefKind::Part,
                "Car",
                &[],
                vec![
                    usage(UsageKind::Part, "front", vec![typed_by("Wheel", 10)], vec![]),
                    usage(
                        UsageKind::Part,
                        "spare",
                        vec![FeatureSpecialization::Subsets(vec![TargetRef::Name(qn("front", 20))])],
                        vec![],
                    ),
                ],
            ),
        ],
    )])
}

#[test]
fn derived_properties_answer_by_name() {
    let d = vehicle();
    let (car, front, spare, wheel) =
        (find(&d, "Car"), find(&d, "front"), find(&d, "spare"), find(&d, "Wheel"));
    let elements = |e, name| match d.derived(e, name) {
        Derived::Value(DerivedValue::Elements(v)) => v,
        _ => panic!("{name} is not a list of elements"),
    };
    assert_eq!(elements(car, "ownedFeature"), vec![front, spare]);
    assert_eq!(elements(car, "nestedPart"), vec![front, spare]);
    match d.derived(front, "owningType") {
        Derived::Value(DerivedValue::Element(e)) => assert_eq!(e, car),
        _ => panic!("no owning type"),
    }
    match d.derived(spare, "qualifiedName") {
        Derived::Value(DerivedValue::Str(s)) => assert_eq!(s, "P::Car::spare"),
        _ => panic!("no qualified name"),
    }
    // The type comes through the subsetted feature.
    match d.derived(spare, "type") {
        Derived::Value(DerivedValue::References(v)) => {
            assert_eq!(v.len(), 1);
            assert_eq!(v[0].element(), Some(wheel));
        }
        _ => panic!("no types"),
    }
    match d.derived(spare, "partDefinition") {
        Derived::Value(DerivedValue::References(v)) => assert_eq!(v[0].element(), Some(wheel)),
        _ => panic!("no part definitions"),
    }
    assert!(matches!(d.derived(car, "type"), Derived::NotDeclared));
    assert!(matches!(d.derived(car, "unheardOf"), Derived::NotDeclared));
    assert!(matches!(d.derived(front, "isReference"), Derived::Value(DerivedValue::Bool(false))));
}

#[test]
fn unnamed_redefinitions_take_the_redefined_name() {
    let d = derivation(vec![package(
        "P",
        vec![
            def(DefKind::Part, "A", &[], vec![usage(UsageKind::Part, "leg", vec![], vec![])]),
            def(
                DefKind::Part,
                "B",
                &["A"],
                vec![member(MemberKind::Usage(usage_of(
                    UsageKind::Part,
                    no_id(),
                    vec![FeatureSpecialization::Redefines(vec![TargetRef::Name(qn("leg", 30))])],
                    UsageDetail::Plain,
                    vec![],
                )))],
            ),
        ],
    )]);
    let leg = find(&d, "leg");
    let unnamed = (0..d.graph.elements.len())
        .find(|&e| e != leg && d.graph.ty_of(e) == "PartUsage")
        .unwrap();
    assert_eq!(d.name(unnamed).as_deref(), Some("leg"));
    assert_eq!(d.qualified_name(unnamed).as_deref(), Some("P::B::leg"));
    assert_eq!(d.short_name(unnamed), None);
}

#[test]
fn relationship_ends_name_source_and_target() {
    let d = vehicle();
    let (front, wheel) = (find(&d, "front"), find(&d, "Wheel"));
    let typing = (0..d.graph.elements.len()).find(|&e| d.graph.ty_of(e) == "FeatureTyping").unwrap();
    let (source, target) = d.relationship_ends(typing);
    assert!(matches!(target[0], Reference::Element(e) if e == wheel));
    assert!(source.iter().all(|s| s.element() == Some(front)));
    let (none, nothing) = d.relationship_ends(wheel);
    assert!(none.is_empty() && nothing.is_empty());
}

#[test]
fn library_specializations_are_implied_once_named() {
    let units = vec![model_unit("u.sysml", false, vec![package("P", vec![part_def("A"), part("a", "A")])])];
    let (built, _) = build_model(&units, CacheSlot::Off);
    let outside = vec![
        NamedId { name: "Parts::Part".to_string(), id: 7 },
        NamedId { name: "Parts::parts".to_string(), id: 8 },
    ];
    let closures = no_closures(&built);
    let d = Derivation::new(built, metamodel(), &outside, vec![], closures);
    let a = find(&d, "A");
    let implied = d.implied(a);
    assert_eq!(implied.len(), 1);
    assert_eq!(d.graph.ty_of(implied[0]), "Subclassification");
    assert!(d.is_implied(implied[0]));
    assert!(!d.is_implied(a));
    match d.derived(a, "ownedSpecialization") {
        Derived::Value(DerivedValue::Elements(v)) => assert_eq!(v, implied),
        _ => panic!("no specializations"),
    }
    let owner = d.graph.id_of(a);
    assert_eq!(
        d.graph.id_of(implied[0]),
        v5(Uuid::NAMESPACE_OID.as_u128(), &format!("{}/implied0", Uuid::from_u128(owner)))
    );
}

#[test]
fn notes_are_about_what_they_name_or_their_owner() {
    let d = derivation(vec![package(
        "P",
        vec![
            part_def("A"),
            member(MemberKind::Comment(Comment {
                id: no_id(),
                body: "/* on A */".to_string(),
                locale: None,
                about: vec![qn("A", 40)],
            })),
            member(MemberKind::Doc(Documentation {
                id: no_id(),
                body: "/* on P */".to_string(),
                locale: None,
            })),
        ],
    )]);
    let notes = d.annotation_notes();
    let about: Vec<usize> = notes.iter().map(|n| n.about).collect();
    assert_eq!(about, vec![find(&d, "A"), find(&d, "P")]);
}

#[test]
fn connector_ends_name_their_chains() {
    let end = |target: TargetRef| ConnectorEnd { multiplicity: None, name: None, target };
    let connect = member(MemberKind::Usage(usage_of(
        UsageKind::Connection,
        id("c"),
        vec![],
        UsageDetail::Connector {
            ends: vec![
                end(TargetRef::Name(qn("left", 10))),
                end(TargetRef::Name(qn("absent", 20))),
            ],
        },
        vec![],
    )));
    let d = derivation(vec![package(
        "P",
        vec![usage(UsageKind::Part, "left", vec![], vec![]), connect],
    )]);
    let ends = d.connector_end_targets(find(&d, "c"));
    assert_eq!(ends.len(), 2);
    assert_eq!(ends[0].chain, vec![find(&d, "left")]);
    assert_eq!(ends[0].spelling, None);
    assert!(ends[1].chain.is_empty());
    assert_eq!(ends[1].spelling.as_deref(), Some("absent"));
}

#[test]
fn imports_tell_what_they_import() {
    let d = derivation(vec![
        package("D", vec![part_def("A")]),
        package(
            "U",
            vec![
                import("D", true, Visibility::Private, at(0, 9)),
                import("D::A", false, Visibility::Public, at(10, 19)),
            ],
        ),
    ]);
    let details = d.import_details(find(&d, "U"));
    assert_eq!(details.len(), 2);
    assert_eq!((details[0].target, details[0].is_namespace), (find(&d, "D"), true));
    assert_eq!(details[0].visibility, "private");
    // A membership import stands for the member.
    assert_eq!((details[1].target, details[1].is_namespace), (find(&d, "A"), false));
}

#[test]
fn probing_a_name_marks_no_import_as_used() {
    let units = vec![model_unit(
        "u.sysml",
        false,
        vec![
            package("D", vec![part_def("A")]),
            package("U", vec![import("D", true, Visibility::Private, at(100, 120))]),
        ],
    )];
    let (built, _) = build_model(&units, CacheSlot::Off);
    let mut linker = built.linker;
    let user = index_of(&linker, "U");
    let scope = linker.scope_of(user).unwrap();
    assert!(linker.res.name_is_bound_in(scope, "A"));
    assert!(!linker.res.name_is_bound_in(scope, "Z"));
    assert_eq!(linker.unused_private_imports().len(), 1);
}

/// The unused private imports by their definition, import by import.
fn unused_by_definition(l: &Linker) -> Vec<(usize, usize, usize, Span)> {
    let within = |inner: Span, outer: Span| inner.start >= outer.start && inner.end <= outer.end;
    let mut out = Vec::new();
    for import in &l.res.graph.user_imports {
        if !import.private || l.res.used[import.relationship] {
            continue;
        }
        let unit = l.unit_of_elem(import.relationship);
        let own = l.sites.iter().find(|s| {
            s.unit == unit
                && within(s.span, import.span)
                && (s.kind == "importedNamespace" || s.kind == "importedMembership")
        });
        let Some(own) = own else { continue };
        let feeds = l
            .sites
            .iter()
            .filter(|s| s.unit == unit && !within(s.span, import.span))
            .any(|s| {
                let mut e = s.target;
                let mut hit = e == own.target;
                for _ in 0..64 {
                    match l.res.graph.owner(e) {
                        Some(o) => {
                            hit = hit || o == own.target;
                            e = o;
                        }
                        None => break,
                    }
                }
                hit
            });
        if !feeds {
            out.push((import.relationship, own.target, unit, import.span));
        }
    }
    out
}

fn unused(l: &Linker) -> Vec<(usize, usize, usize, Span)> {
    l.unused_private_imports().iter().map(|u| (u.import, u.target, u.unit, u.span)).collect()
}

fn nested(depth: usize) -> Vec<Member> {
    let mut body = vec![part_def("Leaf")];
    for n in (0..depth).rev() {
        body = vec![package(&format!("N{n}"), body)];
    }
    vec![package("Defs", body)]
}

#[test]
fn indexed_imports_match_legacy_on_generated_graphs() {
    for depth in [1, 8, 63, 64, 65, 80] {
        let mut units = vec![model_unit("defs.sysml", false, nested(depth))];
        for unit in 0..3 {
            let mut body: Vec<Member> = (0..12)
                .map(|i| import("Defs", true, Visibility::Private, at(100 + 40 * i, 130 + 40 * i)))
                .collect();
            body.push(import("Missing", true, Visibility::Private, at(700, 730)));
            body.push(import("Defs", true, Visibility::Public, at(740, 770)));
            let path: String = (0..depth).map(|n| format!("N{n}::")).collect();
            body.push(usage(
                UsageKind::Part,
                "p",
                vec![typed_by(&format!("Defs::{path}Leaf"), 1000)],
                vec![],
            ));
            units.push(model_unit(
                &format!("u{unit}.sysml"),
                false,
                vec![package(&format!("U{unit}"), body)],
            ));
        }
        let (built, _) = build_model(&units, CacheSlot::Off);
        assert_eq!(unused(&built.linker), unused_by_definition(&built.linker));
    }
}

#[test]
fn ancestry_index_keeps_the_exact_64_owner_limit() {
    for depth in [63, 64, 65] {
        let units = vec![
            model_unit("defs.sysml", false, nested(depth)),
            model_unit(
                "user.sysml",
                false,
                vec![package("User", vec![import("Defs", true, Visibility::Private, at(15, 38))])],
            ),
        ];
        let (built, _) = build_model(&units, CacheSlot::Off);
        let mut l = built.linker;
        let leaf = index_of(&l, "Leaf");
        let mut site = *l
            .sites
            .iter()
            .find(|s| s.unit == 1 && s.kind == "importedNamespace")
            .unwrap();
        site.span = at(0, 1);
        site.target = leaf;
        site.kind = "type";
        l.sites.push(site);
        let expected = unused_by_definition(&l);
        assert_eq!(expected.len(), usize::from(depth >= 64));
        assert_eq!(unused(&l), expected);
    }
}

#[test]
fn elements_tell_what_was_declared_of_them() {
    let mut ordered = usage_of(UsageKind::Part, id("xs"), vec![], UsageDetail::Plain, vec![]);
    ordered.declaration.is_ordered = true;
    ordered.declaration.is_nonunique = true;
    ordered.declaration.id.short_name = Some(Name { value: "x".to_string(), span: at(0, 0) });
    let l = build_unit(&unit(vec![package(
        "P",
        vec![def(DefKind::Part, "A", &[], vec![member(MemberKind::Usage(ordered))])],
    )]));
    let g = &l.res.graph;
    let (xs, a) = (index_of(&l, "xs"), index_of(&l, "A"));
    assert!(g.is_ordered(xs) && !g.is_unique(xs));
    assert!(!g.is_ordered(a) && g.is_unique(a));
    assert_eq!(g.element_type(xs), "PartUsage");
    assert_eq!(g.element_name(xs).as_deref(), Some("xs"));
    assert_eq!(g.element_short_name(xs).as_deref(), Some("x"));
    assert_eq!(g.element_effective_name(xs).as_deref(), Some("xs"));
    assert_eq!(g.is_composite(xs), Some(true));
    assert_eq!(g.is_featured_usage(xs), Some(true));
    assert_eq!(g.is_featured_usage(a), None);
    assert_eq!(g.owning_membership_type(xs), Some("FeatureMembership"));
    assert_eq!(g.owning_membership_type(0), None);
    assert_eq!(g.declared_direction(xs), None);
    assert!(!g.has_value(xs) && g.features_with_values().is_empty());
    assert!(g.element_scope(a).is_some());
    assert!(g.metadata_of(a).is_empty() && g.calc_params(a).is_empty());
    assert_eq!(g.portion_kind(xs), None);
    assert_eq!(l.res.root_scope(), 0);
}

#[test]
fn declarations_are_found_by_offset() {
    let named = |name: &str, start: u32, end: u32| {
        let mut d = part_def(name);
        if let MemberKind::Definition(x) = &mut d.kind {
            x.id.name = Some(Name { value: name.to_string(), span: at(start, end) });
        }
        d
    };
    let units = vec![
        model_unit("a.sysml", false, vec![package("P", vec![named("Wide", 10, 30), named("In", 15, 17)])]),
        model_unit("b.sysml", false, vec![package("Q", vec![named("Other", 10, 30)])]),
    ];
    let (built, _) = build_model(&units, CacheSlot::Off);
    let l = &built.linker;
    assert_eq!(l.declaration_at(0, 10), Some(index_of(l, "Wide")));
    assert_eq!(l.declaration_at(0, 16), Some(index_of(l, "In")));
    assert_eq!(l.declaration_at(0, 17), Some(index_of(l, "Wide")));
    assert_eq!(l.declaration_at(1, 16), Some(index_of(l, "Other")));
    assert_eq!(l.declaration_at(0, 30), None);
    assert_eq!(l.declaration_site(index_of(l, "In")), Some((0, at(15, 17))));
}

#[test]
fn specializations_are_told_by_kind() {
    let mut l = build_unit(&unit(vec![package(
        "P",
        vec![
            def(DefKind::Part, "A", &[], vec![usage(UsageKind::Part, "leg", vec![], vec![])]),
            def(
                DefKind::Part,
                "B",
                &["A"],
                vec![usage(
                    UsageKind::Part,
                    "left",
                    vec![
                        typed_by("A", 10),
                        FeatureSpecialization::Redefines(vec![TargetRef::Name(qn("leg", 30))]),
                    ],
                    vec![],
                )],
            ),
        ],
    )]));
    let (a, b, leg, left) =
        (index_of(&l, "A"), index_of(&l, "B"), index_of(&l, "leg"), index_of(&l, "left"));
    let edges: Vec<(&str, usize)> =
        l.res.explicit_specializations(left).iter().map(|e| (e.kind, e.target)).collect();
    assert_eq!(edges, vec![("FeatureTyping", a), ("Redefinition", leg)]);
    assert_eq!(l.res.typings(left), vec![a]);
    assert_eq!(l.res.redefinition_targets(left), vec![leg]);
    assert_eq!(l.res.explicit_supertypes(b), vec![a]);
    assert!(l.res.redefinition_targets(b).is_empty());
    // Members are found by name, inherited ones too.
    assert_eq!(l.res.owned_member(b, "left"), Some(left));
    assert_eq!(l.res.owned_member(b, "leg"), Some(leg));
    assert_eq!(l.res.owned_member(b, "arm"), None);
    let scope = l.scope_of(b);
    assert_eq!(l.res.member_of(b, &qn("left", 0)), Some((left, scope)));
    assert_eq!(l.res.resolve_in(0, &qn("P::B", 0)), Some(b));
}

#[test]
fn enumerations_list_their_literals() {
    let literal = |name: &str| {
        let mut u = usage_of(UsageKind::Enum, id(name), vec![], UsageDetail::Plain, vec![]);
        u.prefix.is_variant = true;
        member(MemberKind::Usage(u))
    };
    let l = build_unit(&unit(vec![package(
        "P",
        vec![
            part_def("Plain"),
            def(DefKind::Enum, "Color", &[], vec![literal("red"), literal("blue")]),
        ],
    )]));
    let enums = l.res.graph.enum_types();
    assert_eq!(enums.len(), 1);
    assert_eq!(enums[0].element, index_of(&l, "Color"));
    assert_eq!(enums[0].values, vec![index_of(&l, "red"), index_of(&l, "blue")]);
}

#[test]
fn notes_and_aliases_are_listed() {
    let doc = |text: &str| {
        member(MemberKind::Doc(Documentation { id: id("Why"), body: text.to_string(), locale: None }))
    };
    let d = derivation(vec![package(
        "P",
        vec![
            def(DefKind::Part, "A", &[], vec![doc("/* because */"), doc("/* */")]),
            member(MemberKind::Alias(Alias { id: id("B"), target: qn("A", 40) })),
            member(MemberKind::Alias(Alias { id: id("C"), target: qn("Gone", 60) })),
        ],
    )]);
    let a = find(&d, "A");
    let docs = d.element_docs(a);
    assert_eq!(docs.len(), 1);
    assert_eq!(docs[0].name.as_deref(), Some("Why"));
    let bodies = d.annotation_bodies();
    assert_eq!(bodies.len(), 1);
    assert_eq!((bodies[0].0, bodies[0].1.trim()), (a, "because"));
    assert_eq!(d.annotation_docs()[0].name.as_deref(), Some("Why"));
    let aliases = d.alias_members();
    assert_eq!(aliases.len(), 1);
    assert_eq!((aliases[0].name.as_str(), aliases[0].target), ("B", a));
    assert!(d.user_elements().contains(&a) && !d.is_library_element(a));
}

#[test]
fn library_names_are_listed_by_id() {
    let all = library_name_map(&with_library(), CacheSlot::Off);
    let elements = library_element_name_map(&with_library(), CacheSlot::Off);
    let top = Uuid::from_u128(v5(Uuid::NAMESPACE_URL.as_u128(), "https://www.omg.org/spec/SysML/Lib"));
    let lib = elements.iter().find(|r| r.id == top.to_string()).unwrap();
    assert_eq!(lib.segments, vec!["Lib"]);
    assert_eq!(elements.len(), 3);
    assert!(all.len() > elements.len());
    assert!(elements.iter().all(|e| all.iter().any(|r| r.id == e.id && r.segments == e.segments)));
}

#[test]
fn imported_memberships_come_once() {
    let l = build_unit(&unit(vec![package("P", vec![part_def("A"), part_def("B")])]));
    let (a, b) = (index_of(&l, "A"), index_of(&l, "B"));
    let owning = |e: usize| l.res.graph.owning_of(e).unwrap();
    assert_eq!(
        l.res.graph.brought_memberships(&vec![b, a, b], &vec![owning(a), 0]),
        vec![owning(b), owning(a), 0]
    );
    assert_eq!(l.res.graph.brought_memberships(&vec![0], &vec![]), vec![]);
}

#[test]
fn metaclasses_list_their_computable_names() {
    let mm = metamodel();
    let names = computable_names(&mm, "PartUsage");
    assert!(names.contains(&"type") && names.contains(&"partDefinition"));
    assert!(!names.contains(&"nestedPart"));
    assert!(computable_names(&mm, "Unheard").is_empty());
}

#[test]
fn bodies_are_read_in_flow_order() {
    let action = |name: &str| usage(UsageKind::Action, name, vec![], vec![]);
    let d = derivation(vec![package(
        "P",
        vec![def(
            DefKind::Action,
            "A",
            &[],
            vec![
                action("start"),
                member(MemberKind::InitialNode(qn("start", 10))),
                member(MemberKind::InitialNode(qn("nowhere", 20))),
                action("end"),
            ],
        )],
    )]);
    let flow: Vec<(Option<usize>, bool, Option<String>)> = d
        .body_flow_members(find(&d, "A"))
        .into_iter()
        .map(|m| match m {
            BodyFlowMember::Member(e) => (Some(e), false, None),
            BodyFlowMember::Initial(t, s) => (t, true, s),
        })
        .collect();
    let (start, end) = (find(&d, "start"), find(&d, "end"));
    assert_eq!(
        flow,
        vec![
            (Some(start), false, None),
            (Some(start), true, None),
            (None, true, Some("nowhere".to_string())),
            (Some(end), false, None),
        ]
    );
}

#[test]
fn states_and_dependencies_tell_their_parts() {
    let sub = |kind, name: &str| {
        member(MemberKind::StateSubaction {
            kind,
            action: Some(usage_of(UsageKind::Action, id(name), vec![], UsageDetail::Plain, vec![])),
        })
    };
    let d = derivation(vec![package(
        "P",
        vec![
            def(
                DefKind::State,
                "S",
                &[],
                vec![sub(StateSubactionKind::Entry, "warm"), sub(StateSubactionKind::Exit, "cool")],
            ),
            part_def("A"),
            member(MemberKind::Dependency(Dependency {
                id: id("dep"),
                metadata: vec![],
                clients: vec![qn("A", 10), qn("Gone", 20)],
                suppliers: vec![qn("S", 30)],
            })),
        ],
    )]);
    let subs: Vec<(String, usize)> =
        d.state_subactions(find(&d, "S")).into_iter().map(|s| (s.kind, s.action)).collect();
    assert_eq!(
        subs,
        vec![("entry".to_string(), find(&d, "warm")), ("exit".to_string(), find(&d, "cool"))]
    );
    let (clients, suppliers) = d.dependency_ends(find(&d, "dep"));
    assert_eq!(clients, vec![find(&d, "A")]);
    assert_eq!(suppliers, vec![find(&d, "S")]);
}

#[test]
fn transitions_tell_their_ends_and_guard() {
    let transition = member(MemberKind::Usage(usage_of(
        UsageKind::Transition,
        id("t"),
        vec![],
        UsageDetail::Transition {
            source: Some(TargetRef::Name(qn("off", 10))),
            trigger: None,
            guard: Some(literal(true, 20)),
            effect: None,
            target: Some(ConnectorEnd {
                multiplicity: None,
                name: None,
                target: TargetRef::Name(qn("on", 30)),
            }),
            is_default: false,
        },
        vec![],
    )));
    let d = derivation(vec![package(
        "P",
        vec![def(
            DefKind::State,
            "S",
            &[],
            vec![
                usage(UsageKind::State, "off", vec![], vec![]),
                usage(UsageKind::State, "on", vec![], vec![]),
                transition,
            ],
        )],
    )]);
    let parts = d.transition_parts(find(&d, "t"));
    assert_eq!(parts.source, Some(find(&d, "off")));
    assert_eq!(parts.target, Some(find(&d, "on")));
    assert!(parts.guard.is_some() && parts.trigger.is_none() && parts.effect.is_none());
}

#[test]
fn references_and_imports_are_followed() {
    let d = derivation(vec![
        package("D", vec![usage(UsageKind::Action, "a", vec![], vec![])]),
        package(
            "U",
            vec![
                import("D", true, Visibility::Private, at(0, 9)),
                usage(
                    UsageKind::Action,
                    "b",
                    vec![FeatureSpecialization::References(TargetRef::Name(qn("D::a", 40)))],
                    vec![],
                ),
            ],
        ),
    ]);
    assert_eq!(d.referenced_features(find(&d, "b")), vec![vec![find(&d, "a")]]);
    assert_eq!(d.import_targets(find(&d, "U")), vec![(find(&d, "D"), true)]);
    assert!(d.referenced_features(find(&d, "a")).is_empty());
}

#[test]
fn spans_and_keywords_are_as_written() {
    let mut part_of = usage_of(
        UsageKind::Part,
        id("x"),
        vec![
            typed_by("A", 50),
            FeatureSpecialization::Subsets(vec![TargetRef::Name(qn("y", 60))]),
        ],
        UsageDetail::Plain,
        vec![],
    );
    part_of.prefix.is_abstract = true;
    part_of.prefix.is_derived = true;
    let mut whole = member(MemberKind::Usage(part_of));
    whole.span = at(40, 70);
    let l = build_unit(&unit(vec![package(
        "P",
        vec![part_def("A"), usage(UsageKind::Part, "y", vec![], vec![]), whole, part("z", "Gone")],
    )]));
    let g = &l.res.graph;
    let x = index_of(&l, "x");
    assert_eq!(g.prefix_keywords(x), vec!["abstract", "derived"]);
    assert_eq!(l.typing_spans(x), vec![(0, at(50, 51))]);
    assert_eq!(l.specialization_spans(x), vec![(0, at(50, 51)), (0, at(60, 61))]);
    assert_eq!(l.member_extent(x), Some((0, at(40, 70))));
    assert_eq!(g.elements_of_metaclass("PartDefinition"), vec![index_of(&l, "A")]);
    assert_eq!(g.spelled_member_visibility(x).as_deref(), Some("public"));
    let missing = l.unresolved_references();
    assert_eq!(missing.len(), 1);
    assert_eq!((missing[0].spelling.as_str(), missing[0].span), ("Gone", at(50, 54)));
    assert_eq!(l.unresolved_count(), 1);
}

#[test]
fn calculations_come_to_their_result() {
    let l = build_unit(&unit(vec![package(
        "P",
        vec![
            def(
                DefKind::Calc,
                "C",
                &[],
                vec![member(MemberKind::Result(literal(true, 15)))],
            ),
            part_def("A"),
        ],
    )]));
    let c = index_of(&l, "C");
    let (scope, body) = l.res.graph.calc_body(c).unwrap();
    assert_eq!(Some(scope), l.scope_of(c));
    assert_eq!(body.span, at(15, 19));
    assert!(l.res.graph.calc_body(index_of(&l, "A")).is_none());
    assert_eq!(l.res.graph.calc_return_param(c), None);
}

#[test]
fn an_excluded_element_captures_nothing() {
    let mut l = build_unit(&unit(vec![package(
        "P",
        vec![
            part_def("T"),
            package("Q", vec![part_def("T")]),
        ],
    )]));
    let q = index_of(&l, "Q");
    let scope = l.scope_of(q).unwrap();
    let inner = l.res.resolve_in(scope, &qn("T", 0)).unwrap();
    let outer = l.res.resolve_in_excluding(scope, &qn("T", 0), Some(inner)).unwrap();
    assert_ne!(inner, outer);
    assert_eq!(l.res.graph.element_qualified_name(outer).as_deref(), Some("P::T"));
}

#[test]
fn closures_widen_the_members_of_a_type() {
    let units = vec![model_unit(
        "u.sysml",
        false,
        vec![package(
            "P",
            vec![
                def(DefKind::Part, "A", &[], vec![usage(UsageKind::Part, "leg", vec![], vec![])]),
                def(DefKind::Part, "B", &["A"], vec![]),
            ],
        )],
    )];
    let (built, _) = build_model(&units, CacheSlot::Off);
    let (b, leg) = (index_of(&built.linker, "B"), index_of(&built.linker, "leg"));
    let owning = built.linker.res.graph.owning_of(leg).unwrap();
    let mut closures = no_closures(&built);
    closures.written.inherited[b].push(owning);
    let none: Vec<NamedId> = vec![];
    let mut d = Derivation::new(built, metamodel(), &none, vec![], closures);
    let members = |d: &Derivation| match d.derived(b, "member") {
        Derived::Value(DerivedValue::References(v)) => v.iter().filter_map(|r| r.element()).collect::<Vec<_>>(),
        Derived::Value(DerivedValue::Elements(v)) => v,
        _ => panic!("no members"),
    };
    assert!(matches!(d.closure_policy(), ClosurePolicy::Passthrough));
    assert!(!members(&d).contains(&leg));
    d.set_closure_policy(ClosurePolicy::Closure { include_implied: false });
    assert!(members(&d).contains(&leg));
    assert!(matches!(d.closure_policy(), ClosurePolicy::Closure { include_implied: false }));
    d.set_closure_policy(ClosurePolicy::Closure { include_implied: true });
    assert!(!members(&d).contains(&leg));
}

#[test]
fn library_specializations_of_an_element_are_told() {
    let d = vehicle();
    assert!(d.implied_relationships(find(&d, "Car")).is_empty());
}

#[test]
fn conformance_follows_specializations_upward() {
    let mut l = build_unit(&unit(vec![package(
        "P",
        vec![
            part_def("A"),
            def(DefKind::Part, "B", &["A"], vec![]),
            def(DefKind::Part, "C", &["B"], vec![]),
        ],
    )]));
    let (a, b, c) = (index_of(&l, "A"), index_of(&l, "B"), index_of(&l, "C"));
    assert!(l.res.conforms(c, a) && l.res.conforms(b, a) && l.res.conforms(a, a));
    assert!(!l.res.conforms(a, c));
    assert_eq!(l.reference_sites().len(), l.sites.len());
    assert_eq!(l.res.graph.element_id(a), l.res.graph.id_of(a));
    let p = index_of(&l, "P");
    assert_eq!(l.res.graph.owned_members(p), vec![a, b, c]);
}

#[test]
fn owned_features_come_through_feature_memberships() {
    let d = vehicle();
    let mut mm = metamodel();
    mm.class_props.push(ClassProps {
        metaclass: "FeatureMembership",
        props: vec![PropertyRow { name: "ownedMemberFeature", shape: PropertyShape::Nullable }],
    });
    let car = find(&d, "Car");
    assert_eq!(d.graph.owned_features(&mm, car), vec![find(&d, "front"), find(&d, "spare")]);
    assert!(d.graph.owned_features(&mm, find(&d, "P")).is_empty());
    match d.derived(find(&d, "spare"), "type") {
        Derived::Value(v) => assert_eq!(v.elements(), vec![find(&d, "Wheel")]),
        _ => panic!("no types"),
    }
}

#[test]
fn a_missed_name_that_a_model_introduces_is_resolved_afresh() {
    let lib = || {
        model_unit("lib.sysml", true, vec![library("Lib", vec![part_def("Base"), part("late", "Later::T")])])
    };
    let (cold, _) = build_model(&vec![lib()], CacheSlot::Record);
    let cache = cold.recorded.unwrap();
    let at = cache.outcomes.iter().position(|o| o.is_none()).unwrap();
    assert_eq!(cache.outcome_misses[at], vec!["Later".to_string()]);
    let reread = |c: &LibraryCache| LibraryCache::from_bytes(&c.to_bytes("b"), "b").unwrap();
    let typing = |units: &Vec<ModelUnit>, slot: CacheSlot| {
        let (all, _) = library_to_compact_json_with_units(units, slot);
        match of_type(&all, "FeatureTyping")[0].get("type") {
            Some(Value::Ref(l)) => link_text(l),
            _ => panic!("no type"),
        }
    };
    let user = |name: &str| model_unit("user.sysml", false, vec![package(name, vec![part_def("T")])]);
    // A model that does not introduce the name replays the miss.
    let other = vec![lib(), user("Other")];
    assert_eq!(typing(&other, CacheSlot::Replay(reread(&cache))), "@Later::T");
    // One that does resolves the reference as a build from scratch.
    let later = vec![lib(), user("Later")];
    let warm = typing(&later, CacheSlot::Replay(reread(&cache)));
    assert!(!warm.starts_with('@'));
    assert_eq!(warm, typing(&later, CacheSlot::Off));
    let (warm, _) = model_to_compact_json_with_units(&later, CacheSlot::Replay(reread(&cache)));
    let (plain, _) = model_to_compact_json_with_units(&later, CacheSlot::Off);
    assert_eq!(spelled(&warm), spelled(&plain));
}

#[test]
fn misses_behind_an_import_count_for_what_goes_through_it() {
    // `Hidden` is looked up through an import of a package that is not there:
    // the second lookup finds the import memoized.
    let lib = || {
        model_unit(
            "lib.sysml",
            true,
            vec![library(
                "Lib",
                vec![
                    import("Later", true, Visibility::Private, at(0, 9)),
                    part("one", "Hidden"),
                    part("two", "Hidden"),
                ],
            )],
        )
    };
    let (cold, _) = build_model(&vec![lib()], CacheSlot::Record);
    let cache = cold.recorded.unwrap();
    let missing: Vec<usize> =
        (0..cache.outcomes.len()).filter(|&i| cache.outcomes[i].is_none()).collect();
    assert!(missing.len() >= 3);
    assert!(missing.iter().all(|&i| cache.outcome_misses[i].contains(&"Later".to_string())));
    let units =
        vec![lib(), model_unit("u.sysml", false, vec![package("Later", vec![part_def("Hidden")])])];
    let (warm, _) = library_to_compact_json_with_units(&units, CacheSlot::Replay(cache));
    let (plain, _) = library_to_compact_json_with_units(&units, CacheSlot::Off);
    assert_eq!(spelled(&warm), spelled(&plain));
}

#[test]
fn a_model_without_a_library_name_shadowed_replays_what_it_recorded() {
    let units = with_library();
    let (cold, _) = build_model(&units, CacheSlot::Record);
    let cache = cold.recorded.unwrap();
    assert_eq!(cache.lib_ids.len(), cold.boundary);
    let ids: Vec<u128> =
        (0..cold.boundary).map(|e| cold.linker.res.graph.element_id(e)).collect();
    assert_eq!(cache.lib_ids, ids);
    let (warm, stale) = build_model(&units, CacheSlot::Replay(cache));
    assert!(!stale);
    let (a, b) = (&cold.linker.res.graph, &warm.linker.res.graph);
    assert_eq!(a.elements.len(), b.elements.len());
    for e in 0..a.elements.len() {
        assert_eq!(a.element_id(e), b.element_id(e));
        assert_eq!(a.elements[e].path, b.elements[e].path);
    }
}

#[test]
fn a_model_is_built_alike_on_its_own_recording_whatever_was_looked_up_before() {
    // `D` specializes the `x` that `C` inherits twice. Which of the two is
    // meant shows only once the redefinition in `B` is linked, and the members
    // of `D` are looked into before that.
    let x = |specs| usage(UsageKind::Part, "x", specs, vec![usage(UsageKind::Part, "y", vec![], vec![])]);
    let subset = |name: &str, start: u32| {
        vec![FeatureSpecialization::Subsets(vec![TargetRef::Name(qn(name, start))])]
    };
    let body = vec![
        def(DefKind::Part, "D", &["C::x"], vec![usage(UsageKind::Part, "z", subset("w", 10), vec![])]),
        usage(UsageKind::Part, "w", vec![], vec![]),
        def(DefKind::Part, "A", &[], vec![x(vec![])]),
        def(
            DefKind::Part,
            "B",
            &["A"],
            vec![x(vec![FeatureSpecialization::Redefines(vec![TargetRef::Name(qn("A::x", 30))])])],
        ),
        def(DefKind::Part, "C", &["A", "B"], vec![]),
    ];
    let units = vec![
        model_unit("lib.sysml", true, vec![library("Lib", body)]),
        model_unit(
            "user.sysml",
            false,
            vec![package("U", vec![usage(UsageKind::Part, "p", subset("Lib::D::y", 60), vec![])])],
        ),
    ];
    let (cold, _) = build_model(&units, CacheSlot::Record);
    let cache = cold.recorded.unwrap();
    let (warm, stale) = build_model(&units, CacheSlot::Replay(cache));
    assert!(!stale);
    let found = |l: &Linker| {
        l.reference_sites().iter().filter(|s| s.kind == "subsettedFeature").count()
    };
    assert_eq!((found(&cold.linker), found(&warm.linker)), (1, 1));
    let (off, _) = library_to_compact_json_with_units(&units, CacheSlot::Off);
    let (rec, _) = build_model(&units, CacheSlot::Record);
    let (on, _) = library_to_compact_json_with_units(&units, CacheSlot::Replay(rec.recorded.unwrap()));
    assert_eq!(spelled(&off), spelled(&on));
}

#[test]
fn linking_takes_the_references_from_the_graph() {
    let (built, _) = build_model(&with_library(), CacheSlot::Off);
    let mut l = built.linker;
    assert!(l.res.graph.pending.is_empty());
    let (sites, missing) = (l.sites.len(), l.unresolved.len());
    l.resolve_pending();
    assert_eq!((l.sites.len(), l.unresolved.len()), (sites, missing));
}

#[test]
fn the_report_takes_the_findings() {
    let (built, _) = build_model(
        &vec![model_unit("u.sysml", false, vec![package("P", vec![part("x", "Nowhere")])])],
        CacheSlot::Off,
    );
    let mut l = built.linker;
    assert_eq!(l.resolution_report(&built.scope_starts).unresolved.len(), 1);
    assert_eq!(l.resolution_report(&built.scope_starts).unresolved.len(), 0);
    assert_eq!(l.unresolved_count(), 0);
}

#[test]
fn closures_are_answered_under_every_policy() {
    let units = vec![model_unit(
        "u.sysml",
        false,
        vec![package(
            "P",
            vec![
                def(DefKind::Part, "A", &[], vec![usage(UsageKind::Part, "leg", vec![], vec![])]),
                def(DefKind::Part, "B", &["A"], vec![usage(UsageKind::Part, "arm", vec![], vec![])]),
            ],
        )],
    )];
    let (built, _) = build_model(&units, CacheSlot::Off);
    let mut mm = metamodel();
    mm.class_props[0].props.insert(0, PropertyRow { name: "importedMembership", shape: PropertyShape::Array });
    mm.class_props[0].props.insert(1, PropertyRow { name: "inheritedMembership", shape: PropertyShape::Array });
    mm.derived_names.insert(0, "importedMembership");
    mm.derived_names.insert(1, "inheritedMembership");
    let b = index_of(&built.linker, "B");
    let owning = |name: &str| {
        let e = index_of(&built.linker, name);
        built.linker.res.graph.owning_of(e).unwrap()
    };
    let (leg, arm) = (owning("leg"), owning("arm"));
    let mut closures = no_closures(&built);
    closures.written.inherited[b].push(leg);
    closures.implied.inherited[b].push(leg);
    closures.implied.inherited[b].push(arm);
    closures.written.members[b] = vec![index_of(&built.linker, "leg"), index_of(&built.linker, "leg")];
    closures.written.aliases[b] = vec![leg, arm];
    closures.implied.heritage_cut[b] = true;
    closures.written.imports_cut[leg] = true;
    let none: Vec<NamedId> = vec![];
    let mut d = Derivation::new(built, mm, &none, vec![], closures);
    let answer = |d: &Derivation, name: &str| match d.derived(b, name) {
        Derived::Value(v) => v.elements(),
        _ => panic!("not computed"),
    };
    assert_eq!(answer(&d, "inheritedMembership"), vec![leg]);
    assert_eq!(answer(&d, "importedMembership"), vec![leg, arm]);
    assert!(!d.closure_truncated(b) && !d.closure_truncated(leg));
    d.set_closure_policy(ClosurePolicy::Closure { include_implied: false });
    assert_eq!(answer(&d, "inheritedMembership"), vec![leg]);
    d.set_closure_policy(ClosurePolicy::Closure { include_implied: true });
    assert_eq!(answer(&d, "inheritedMembership"), vec![leg, arm]);
    assert!(answer(&d, "importedMembership").is_empty());
    assert!(d.closure_truncated(b));
}

#[test]
fn views_name_their_rendering() {
    let render = member(MemberKind::Render(usage_of(
        UsageKind::Rendering,
        no_id(),
        vec![FeatureSpecialization::References(TargetRef::Name(qn("asTree", 40)))],
        UsageDetail::Plain,
        vec![],
    )));
    let d = derivation(vec![package(
        "P",
        vec![
            usage(UsageKind::Rendering, "asTree", vec![], vec![]),
            usage(UsageKind::View, "v", vec![], vec![render]),
        ],
    )]);
    assert_eq!(d.view_rendering(find(&d, "v")).as_deref(), Some("asTree"));
    assert_eq!(d.view_rendering(find(&d, "asTree")), None);
}

#[test]
fn identifiers_are_spelled_with_hyphens() {
    let (built, _) = build_model(&with_library(), CacheSlot::Off);
    let all = library_name_map(&with_library(), CacheSlot::Off);
    assert!(!all.is_empty());
    for row in &all {
        assert_eq!(row.id, Uuid::parse_str(&row.id).unwrap().hyphenated().to_string());
    }
    assert_eq!(built.boundary, built.linker.boundary());
}

#[test]
fn names_that_a_root_import_brings_are_resolved_afresh() {
    let lib = || {
        model_unit("lib.sysml", true, vec![library("Lib", vec![part("late", "T")])])
    };
    let (cold, _) = build_model(&vec![lib()], CacheSlot::Record);
    let cache = cold.recorded.unwrap();
    let units = vec![
        lib(),
        model_unit(
            "user.sysml",
            false,
            vec![
                package("P", vec![part_def("T")]),
                import("P", true, Visibility::Public, at(0, 9)),
            ],
        ),
    ];
    let (warm, _) = library_to_compact_json_with_units(&units, CacheSlot::Replay(cache));
    let (plain, _) = library_to_compact_json_with_units(&units, CacheSlot::Off);
    assert_eq!(spelled(&warm), spelled(&plain));
    assert!(matches!(of_type(&plain, "FeatureTyping")[0].get("type"), Some(Value::Ref(Link::Id(_)))));
}

#[test]
fn a_library_is_recorded_alike_from_every_model() {
    let lib = || {
        model_unit(
            "lib.sysml",
            true,
            vec![library("Lib", vec![part_def("Base"), part("late", "Later::T"), part("one", "Base")])],
        )
    };
    let user = || model_unit("user.sysml", false, vec![package("Later", vec![part_def("T")])]);
    let bytes = |units: &Vec<ModelUnit>| {
        let (built, _) = build_model(units, CacheSlot::Record);
        built.recorded.unwrap().to_bytes("b")
    };
    let alone = bytes(&vec![lib()]);
    assert_eq!(alone, bytes(&vec![lib(), user()]));
    assert_eq!(alone, bytes(&vec![user(), lib()]));
    // A cache recorded beside one model serves another.
    let both = vec![lib(), user()];
    let other = vec![
        lib(),
        model_unit("other.sysml", false, vec![package("Other", vec![part("x", "Lib::one")])]),
    ];
    let (recorded, _) = build_model(&both, CacheSlot::Record);
    let (warm, _) = library_to_compact_json_with_units(&other, CacheSlot::Replay(recorded.recorded.unwrap()));
    let (plain, _) = library_to_compact_json_with_units(&other, CacheSlot::Off);
    assert_eq!(spelled(&warm), spelled(&plain));
    let late = |units: &Vec<ModelUnit>| {
        let (built, _) = build_model(units, CacheSlot::Off);
        built.linker.unresolved.len()
    };
    assert_eq!((late(&vec![lib()]), late(&both)), (1, 0));
}

#[test]
fn a_root_member_that_may_hide_names_has_everything_searched() {
    let lib = || model_unit("lib.sysml", true, vec![library("Lib", vec![part_def("Base"), part("one", "Base")])]);
    let subject = member(MemberKind::Subject(usage_of(
        UsageKind::Part,
        id("Lib"),
        vec![],
        UsageDetail::Plain,
        vec![],
    )));
    let units = vec![lib(), model_unit("user.sysml", false, vec![subject])];
    let (cold, _) = build_model(&vec![lib()], CacheSlot::Record);
    let (warm, stale) = build_model(&units, CacheSlot::Replay(cold.recorded.unwrap()));
    assert!(!stale);
    let (plain, _) = build_model(&units, CacheSlot::Off);
    let (a, b) = (&warm.linker.res.graph, &plain.linker.res.graph);
    assert_eq!(a.elements.len(), b.elements.len());
    for e in 0..a.elements.len() {
        assert_eq!(a.element_id(e), b.element_id(e));
    }
}

#[test]
fn an_ambiguous_library_reference_is_reported_on_a_cache_too() {
    let x = || usage(UsageKind::Part, "x", vec![], vec![]);
    let lib = || {
        model_unit(
            "lib.sysml",
            true,
            vec![library(
                "Lib",
                vec![
                    def(DefKind::Part, "A", &[], vec![x()]),
                    def(DefKind::Part, "B", &[], vec![x()]),
                    def(DefKind::Part, "C", &["A", "B"], vec![]),
                    part("one", "C::x"),
                ],
            )],
        )
    };
    let units = vec![lib()];
    let (cold, _) = build_model(&units, CacheSlot::Record);
    let (unsure, missing) = (cold.linker.ambiguous.len(), cold.linker.unresolved.len());
    let (warm, _) = build_model(&units, CacheSlot::Replay(cold.recorded.unwrap()));
    assert_eq!(warm.linker.ambiguous.len() + warm.linker.unresolved.len(), unsure + missing);
    assert_eq!(warm.linker.ambiguous.len(), 0);
}

#[test]
fn compositions_are_followed_to_their_end() {
    let names = ["k0", "k1", "k2", "k3", "k4", "k5", "k6", "k7", "k8", "k9"];
    let units = vec![model_unit(
        "u.sysml",
        false,
        vec![package(
            "P",
            vec![def(DefKind::Part, "A", &[], vec![usage(UsageKind::Part, "leg", vec![], vec![])])],
        )],
    )];
    let (built, _) = build_model(&units, CacheSlot::Off);
    let mut mm = metamodel();
    for (i, name) in names.iter().enumerate() {
        mm.class_props[0].props.insert(i, PropertyRow { name, shape: PropertyShape::Array });
        mm.derived_names.push(name);
        let base = if i == 0 { "ownedFeature" } else { names[i - 1] };
        mm.compositions.push(Composition { name, base, kind: "PartUsage", single: false });
    }
    mm.derived_names.sort();
    let none: Vec<NamedId> = vec![];
    let closures = no_closures(&built);
    let d = Derivation::new(built, mm, &none, vec![], closures);
    let (a, leg) = (find(&d, "A"), find(&d, "leg"));
    for name in &names[..9] {
        match d.derived(a, name) {
            Derived::Value(v) => assert_eq!(v.elements(), vec![leg]),
            _ => panic!("not computed"),
        }
    }
    assert!(matches!(d.derived(a, names[9]), Derived::NotComputed));
}
