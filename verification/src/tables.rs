//! The fixed tables of the lowering: metaclasses of the syntactic kinds,
//! library bases, operators, and the generalizations between metaclasses.

use crate::ast::{
    no_span, BinaryOp, ClassificationOp, DefKind, Dialect, FeatureDirection, Name, NameV, PortionKind, QnV,
    QualifiedName, RelationshipDeclKind, RequirementConstraintKind, Span, StateSubactionKind,
    TriggerKind, UnaryOp, UsageKind, Visibility,
};
use crate::text::str_eq;
use vstd::prelude::*;

verus! {

#[verifier::opaque]
pub open spec fn def_metaclass_text(kind: DefKind) -> Seq<char> {
    match kind {
        DefKind::Extended => "Definition"@,
        DefKind::Type => "Type"@,
        DefKind::Classifier => "Classifier"@,
        DefKind::Class => "Class"@,
        DefKind::Struct => "Structure"@,
        DefKind::DataType => "DataType"@,
        DefKind::Assoc => "Association"@,
        DefKind::AssocStruct => "AssociationStructure"@,
        DefKind::Behavior => "Behavior"@,
        DefKind::Interaction => "Interaction"@,
        DefKind::Function => "Function"@,
        DefKind::Predicate => "Predicate"@,
        DefKind::Metaclass => "Metaclass"@,
        DefKind::Attribute => "AttributeDefinition"@,
        DefKind::Enum => "EnumerationDefinition"@,
        DefKind::Occurrence | DefKind::Individual => "OccurrenceDefinition"@,
        DefKind::Item => "ItemDefinition"@,
        DefKind::Metadata => "MetadataDefinition"@,
        DefKind::Part => "PartDefinition"@,
        DefKind::Port => "PortDefinition"@,
        DefKind::Connection => "ConnectionDefinition"@,
        DefKind::Interface => "InterfaceDefinition"@,
        DefKind::Allocation => "AllocationDefinition"@,
        DefKind::Flow => "FlowDefinition"@,
        DefKind::Action => "ActionDefinition"@,
        DefKind::State => "StateDefinition"@,
        DefKind::Calc => "CalculationDefinition"@,
        DefKind::Constraint => "ConstraintDefinition"@,
        DefKind::Requirement => "RequirementDefinition"@,
        DefKind::Concern => "ConcernDefinition"@,
        DefKind::Case => "CaseDefinition"@,
        DefKind::Analysis => "AnalysisCaseDefinition"@,
        DefKind::Verification => "VerificationCaseDefinition"@,
        DefKind::UseCase => "UseCaseDefinition"@,
        DefKind::View => "ViewDefinition"@,
        DefKind::Viewpoint => "ViewpointDefinition"@,
        DefKind::Rendering => "RenderingDefinition"@,
    }
}

/// The metaclass of a definition kind.
pub fn def_metaclass(kind: DefKind) -> (r: &'static str)
    ensures
        r@ == def_metaclass_text(kind),
{
    proof {
        reveal(def_metaclass_text);
    }
    match kind {
        DefKind::Extended => "Definition",
        DefKind::Type => "Type",
        DefKind::Classifier => "Classifier",
        DefKind::Class => "Class",
        DefKind::Struct => "Structure",
        DefKind::DataType => "DataType",
        DefKind::Assoc => "Association",
        DefKind::AssocStruct => "AssociationStructure",
        DefKind::Behavior => "Behavior",
        DefKind::Interaction => "Interaction",
        DefKind::Function => "Function",
        DefKind::Predicate => "Predicate",
        DefKind::Metaclass => "Metaclass",
        DefKind::Attribute => "AttributeDefinition",
        DefKind::Enum => "EnumerationDefinition",
        DefKind::Occurrence | DefKind::Individual => "OccurrenceDefinition",
        DefKind::Item => "ItemDefinition",
        DefKind::Metadata => "MetadataDefinition",
        DefKind::Part => "PartDefinition",
        DefKind::Port => "PortDefinition",
        DefKind::Connection => "ConnectionDefinition",
        DefKind::Interface => "InterfaceDefinition",
        DefKind::Allocation => "AllocationDefinition",
        DefKind::Flow => "FlowDefinition",
        DefKind::Action => "ActionDefinition",
        DefKind::State => "StateDefinition",
        DefKind::Calc => "CalculationDefinition",
        DefKind::Constraint => "ConstraintDefinition",
        DefKind::Requirement => "RequirementDefinition",
        DefKind::Concern => "ConcernDefinition",
        DefKind::Case => "CaseDefinition",
        DefKind::Analysis => "AnalysisCaseDefinition",
        DefKind::Verification => "VerificationCaseDefinition",
        DefKind::UseCase => "UseCaseDefinition",
        DefKind::View => "ViewDefinition",
        DefKind::Viewpoint => "ViewpointDefinition",
        DefKind::Rendering => "RenderingDefinition",
    }
}

#[verifier::opaque]
pub open spec fn sysml_usage_metaclass_text(kind: UsageKind) -> Seq<char> {
    match kind {
        UsageKind::Feature => "Feature"@,
        UsageKind::Step => "Step"@,
        UsageKind::Expr => "Expression"@,
        UsageKind::BoolExpr => "BooleanExpression"@,
        UsageKind::Invariant => "Invariant"@,
        UsageKind::Connector => "Connector"@,
        UsageKind::Attribute => "AttributeUsage"@,
        UsageKind::Enum => "EnumerationUsage"@,
        UsageKind::Occurrence => "OccurrenceUsage"@,
        UsageKind::Item => "ItemUsage"@,
        UsageKind::Metadata => "MetadataUsage"@,
        UsageKind::Part => "PartUsage"@,
        UsageKind::Port => "PortUsage"@,
        UsageKind::Connection => "ConnectionUsage"@,
        UsageKind::Interface => "InterfaceUsage"@,
        UsageKind::Allocation => "AllocationUsage"@,
        UsageKind::Flow | UsageKind::Message => "FlowUsage"@,
        UsageKind::Action => "ActionUsage"@,
        UsageKind::State => "StateUsage"@,
        UsageKind::Calc => "CalculationUsage"@,
        UsageKind::Constraint => "ConstraintUsage"@,
        UsageKind::Requirement => "RequirementUsage"@,
        UsageKind::Concern => "ConcernUsage"@,
        UsageKind::Case => "CaseUsage"@,
        UsageKind::Analysis => "AnalysisCaseUsage"@,
        UsageKind::Verification => "VerificationCaseUsage"@,
        UsageKind::UseCase => "UseCaseUsage"@,
        UsageKind::View => "ViewUsage"@,
        UsageKind::Viewpoint => "ViewpointUsage"@,
        UsageKind::Rendering => "RenderingUsage"@,
        UsageKind::Ref | UsageKind::Default => "ReferenceUsage"@,
        UsageKind::Extended => "Usage"@,
        UsageKind::Perform => "PerformActionUsage"@,
        UsageKind::Exhibit => "ExhibitStateUsage"@,
        UsageKind::Include => "IncludeUseCaseUsage"@,
        UsageKind::Event => "EventOccurrenceUsage"@,
        UsageKind::Satisfy => "SatisfyRequirementUsage"@,
        UsageKind::AssertConstraint => "AssertConstraintUsage"@,
        UsageKind::Succession => "SuccessionAsUsage"@,
        UsageKind::SuccessionFlow => "SuccessionFlowUsage"@,
        UsageKind::Binding => "BindingConnectorAsUsage"@,
        UsageKind::Transition => "TransitionUsage"@,
        UsageKind::Merge => "MergeNode"@,
        UsageKind::Decide => "DecisionNode"@,
        UsageKind::Join => "JoinNode"@,
        UsageKind::Fork => "ForkNode"@,
        UsageKind::Accept => "AcceptActionUsage"@,
        UsageKind::Send => "SendActionUsage"@,
        UsageKind::Assign => "AssignmentActionUsage"@,
        UsageKind::Terminate => "TerminateActionUsage"@,
        UsageKind::IfNode => "IfActionUsage"@,
        UsageKind::WhileLoop => "WhileLoopActionUsage"@,
        UsageKind::ForLoop => "ForLoopActionUsage"@,
    }
}

/// The metaclass of a usage kind, in SysML.
pub fn sysml_usage_metaclass(kind: UsageKind) -> (r: &'static str)
    ensures
        r@ == sysml_usage_metaclass_text(kind),
{
    proof {
        reveal(sysml_usage_metaclass_text);
    }
    match kind {
        UsageKind::Feature => "Feature",
        UsageKind::Step => "Step",
        UsageKind::Expr => "Expression",
        UsageKind::BoolExpr => "BooleanExpression",
        UsageKind::Invariant => "Invariant",
        UsageKind::Connector => "Connector",
        UsageKind::Attribute => "AttributeUsage",
        UsageKind::Enum => "EnumerationUsage",
        UsageKind::Occurrence => "OccurrenceUsage",
        UsageKind::Item => "ItemUsage",
        UsageKind::Metadata => "MetadataUsage",
        UsageKind::Part => "PartUsage",
        UsageKind::Port => "PortUsage",
        UsageKind::Connection => "ConnectionUsage",
        UsageKind::Interface => "InterfaceUsage",
        UsageKind::Allocation => "AllocationUsage",
        UsageKind::Flow | UsageKind::Message => "FlowUsage",
        UsageKind::Action => "ActionUsage",
        UsageKind::State => "StateUsage",
        UsageKind::Calc => "CalculationUsage",
        UsageKind::Constraint => "ConstraintUsage",
        UsageKind::Requirement => "RequirementUsage",
        UsageKind::Concern => "ConcernUsage",
        UsageKind::Case => "CaseUsage",
        UsageKind::Analysis => "AnalysisCaseUsage",
        UsageKind::Verification => "VerificationCaseUsage",
        UsageKind::UseCase => "UseCaseUsage",
        UsageKind::View => "ViewUsage",
        UsageKind::Viewpoint => "ViewpointUsage",
        UsageKind::Rendering => "RenderingUsage",
        UsageKind::Ref | UsageKind::Default => "ReferenceUsage",
        UsageKind::Extended => "Usage",
        UsageKind::Perform => "PerformActionUsage",
        UsageKind::Exhibit => "ExhibitStateUsage",
        UsageKind::Include => "IncludeUseCaseUsage",
        UsageKind::Event => "EventOccurrenceUsage",
        UsageKind::Satisfy => "SatisfyRequirementUsage",
        UsageKind::AssertConstraint => "AssertConstraintUsage",
        UsageKind::Succession => "SuccessionAsUsage",
        UsageKind::SuccessionFlow => "SuccessionFlowUsage",
        UsageKind::Binding => "BindingConnectorAsUsage",
        UsageKind::Transition => "TransitionUsage",
        UsageKind::Merge => "MergeNode",
        UsageKind::Decide => "DecisionNode",
        UsageKind::Join => "JoinNode",
        UsageKind::Fork => "ForkNode",
        UsageKind::Accept => "AcceptActionUsage",
        UsageKind::Send => "SendActionUsage",
        UsageKind::Assign => "AssignmentActionUsage",
        UsageKind::Terminate => "TerminateActionUsage",
        UsageKind::IfNode => "IfActionUsage",
        UsageKind::WhileLoop => "WhileLoopActionUsage",
        UsageKind::ForLoop => "ForLoopActionUsage",
    }
}

#[verifier::opaque]
pub open spec fn usage_metaclass_text(kind: UsageKind, dialect: Dialect) -> Seq<char> {
    if dialect == Dialect::Kerml && kind == UsageKind::Default {
        "Feature"@
    } else if dialect == Dialect::Kerml && kind == UsageKind::Succession {
        "Succession"@
    } else if dialect == Dialect::Kerml && kind == UsageKind::SuccessionFlow {
        "SuccessionFlow"@
    } else if dialect == Dialect::Kerml && kind == UsageKind::Flow {
        "Flow"@
    } else if dialect == Dialect::Kerml && kind == UsageKind::Binding {
        "BindingConnector"@
    } else if dialect == Dialect::Kerml && kind == UsageKind::Metadata {
        "MetadataFeature"@
    } else {
        sysml_usage_metaclass_text(kind)
    }
}

/// The metaclass of a usage kind: a few kinds have another one in KerML.
pub fn usage_metaclass(kind: UsageKind, dialect: Dialect) -> (r: &'static str)
    ensures
        r@ == usage_metaclass_text(kind, dialect),
{
    proof {
        reveal(usage_metaclass_text);
    }
    if dialect == Dialect::Kerml && kind == UsageKind::Default {
        "Feature"
    } else if dialect == Dialect::Kerml && kind == UsageKind::Succession {
        "Succession"
    } else if dialect == Dialect::Kerml && kind == UsageKind::SuccessionFlow {
        "SuccessionFlow"
    } else if dialect == Dialect::Kerml && kind == UsageKind::Flow {
        "Flow"
    } else if dialect == Dialect::Kerml && kind == UsageKind::Binding {
        "BindingConnector"
    } else if dialect == Dialect::Kerml && kind == UsageKind::Metadata {
        "MetadataFeature"
    } else {
        sysml_usage_metaclass(kind)
    }
}

#[verifier::opaque]
pub open spec fn binary_op_text(op: BinaryOp) -> Seq<char> {
    match op {
        BinaryOp::NullCoalescing => "??"@,
        BinaryOp::Implies => "implies"@,
        BinaryOp::OrBar => "|"@,
        BinaryOp::CondOr => "or"@,
        BinaryOp::Xor => "xor"@,
        BinaryOp::AndAmp => "&"@,
        BinaryOp::CondAnd => "and"@,
        BinaryOp::Eq => "=="@,
        BinaryOp::NotEq => "!="@,
        BinaryOp::Same => "==="@,
        BinaryOp::NotSame => "!=="@,
        BinaryOp::Lt => "<"@,
        BinaryOp::Gt => ">"@,
        BinaryOp::LtEq => "<="@,
        BinaryOp::GtEq => ">="@,
        BinaryOp::Range => ".."@,
        BinaryOp::Add => "+"@,
        BinaryOp::Sub => "-"@,
        BinaryOp::Mul => "*"@,
        BinaryOp::Div => "/"@,
        BinaryOp::Rem => "%"@,
        BinaryOp::Pow => "**"@,
        BinaryOp::Caret => "^"@,
    }
}

/// The operator text of a binary expression.
pub fn binary_op(op: BinaryOp) -> (r: &'static str)
    ensures
        r@ == binary_op_text(op),
{
    proof {
        reveal(binary_op_text);
    }
    match op {
        BinaryOp::NullCoalescing => "??",
        BinaryOp::Implies => "implies",
        BinaryOp::OrBar => "|",
        BinaryOp::CondOr => "or",
        BinaryOp::Xor => "xor",
        BinaryOp::AndAmp => "&",
        BinaryOp::CondAnd => "and",
        BinaryOp::Eq => "==",
        BinaryOp::NotEq => "!=",
        BinaryOp::Same => "===",
        BinaryOp::NotSame => "!==",
        BinaryOp::Lt => "<",
        BinaryOp::Gt => ">",
        BinaryOp::LtEq => "<=",
        BinaryOp::GtEq => ">=",
        BinaryOp::Range => "..",
        BinaryOp::Add => "+",
        BinaryOp::Sub => "-",
        BinaryOp::Mul => "*",
        BinaryOp::Div => "/",
        BinaryOp::Rem => "%",
        BinaryOp::Pow => "**",
        BinaryOp::Caret => "^",
    }
}

#[verifier::opaque]
pub open spec fn unary_op_text(op: UnaryOp) -> Seq<char> {
    match op {
        UnaryOp::Plus => "+"@,
        UnaryOp::Minus => "-"@,
        UnaryOp::Tilde => "~"@,
        UnaryOp::Not => "not"@,
    }
}

/// The operator text of a unary expression.
pub fn unary_op(op: UnaryOp) -> (r: &'static str)
    ensures
        r@ == unary_op_text(op),
{
    proof {
        reveal(unary_op_text);
    }
    match op {
        UnaryOp::Plus => "+",
        UnaryOp::Minus => "-",
        UnaryOp::Tilde => "~",
        UnaryOp::Not => "not",
    }
}

#[verifier::opaque]
pub open spec fn classification_op_text(op: ClassificationOp) -> Seq<char> {
    match op {
        ClassificationOp::IsType => "istype"@,
        ClassificationOp::HasType => "hastype"@,
        ClassificationOp::AtType => "@"@,
        ClassificationOp::MetaAtType => "@@"@,
        ClassificationOp::As => "as"@,
        ClassificationOp::Meta => "meta"@,
    }
}

/// The operator text of a classification expression.
pub fn classification_op(op: ClassificationOp) -> (r: &'static str)
    ensures
        r@ == classification_op_text(op),
{
    proof {
        reveal(classification_op_text);
    }
    match op {
        ClassificationOp::IsType => "istype",
        ClassificationOp::HasType => "hastype",
        ClassificationOp::AtType => "@",
        ClassificationOp::MetaAtType => "@@",
        ClassificationOp::As => "as",
        ClassificationOp::Meta => "meta",
    }
}

#[verifier::opaque]
pub open spec fn trigger_kind_text(kind: TriggerKind) -> Seq<char> {
    match kind {
        TriggerKind::At => "at"@,
        TriggerKind::After => "after"@,
        TriggerKind::When => "when"@,
    }
}

/// The text of a trigger kind.
pub fn trigger_kind(kind: TriggerKind) -> (r: &'static str)
    ensures
        r@ == trigger_kind_text(kind),
{
    proof {
        reveal(trigger_kind_text);
    }
    match kind {
        TriggerKind::At => "at",
        TriggerKind::After => "after",
        TriggerKind::When => "when",
    }
}

#[verifier::opaque]
pub open spec fn requirement_kind_text(kind: RequirementConstraintKind) -> Seq<char> {
    match kind {
        RequirementConstraintKind::Assumption => "assumption"@,
        RequirementConstraintKind::Requirement => "requirement"@,
    }
}

/// The text of a requirement constraint kind.
pub fn requirement_kind(kind: RequirementConstraintKind) -> (r: &'static str)
    ensures
        r@ == requirement_kind_text(kind),
{
    proof {
        reveal(requirement_kind_text);
    }
    match kind {
        RequirementConstraintKind::Assumption => "assumption",
        RequirementConstraintKind::Requirement => "requirement",
    }
}

#[verifier::opaque]
pub open spec fn subaction_kind_text(kind: StateSubactionKind) -> Seq<char> {
    match kind {
        StateSubactionKind::Entry => "entry"@,
        StateSubactionKind::Do => "do"@,
        StateSubactionKind::Exit => "exit"@,
    }
}

/// The text of a state subaction kind.
pub fn subaction_kind(kind: StateSubactionKind) -> (r: &'static str)
    ensures
        r@ == subaction_kind_text(kind),
{
    proof {
        reveal(subaction_kind_text);
    }
    match kind {
        StateSubactionKind::Entry => "entry",
        StateSubactionKind::Do => "do",
        StateSubactionKind::Exit => "exit",
    }
}

#[verifier::opaque]
pub open spec fn direction_text(d: FeatureDirection) -> Seq<char> {
    match d {
        FeatureDirection::In => "in"@,
        FeatureDirection::Out => "out"@,
        FeatureDirection::InOut => "inout"@,
    }
}

/// The text of a feature direction.
pub fn direction(d: FeatureDirection) -> (r: &'static str)
    ensures
        r@ == direction_text(d),
{
    proof {
        reveal(direction_text);
    }
    match d {
        FeatureDirection::In => "in",
        FeatureDirection::Out => "out",
        FeatureDirection::InOut => "inout",
    }
}

#[verifier::opaque]
pub open spec fn portion_text(kind: PortionKind) -> Seq<char> {
    match kind {
        PortionKind::Snapshot => "snapshot"@,
        PortionKind::Timeslice => "timeslice"@,
    }
}

/// The text of a portion kind.
pub fn portion(kind: PortionKind) -> (r: &'static str)
    ensures
        r@ == portion_text(kind),
{
    proof {
        reveal(portion_text);
    }
    match kind {
        PortionKind::Snapshot => "snapshot",
        PortionKind::Timeslice => "timeslice",
    }
}

#[verifier::opaque]
pub open spec fn visibility_text(v: Option<Visibility>) -> Seq<char> {
    match v {
        Some(Visibility::Private) => "private"@,
        Some(Visibility::Protected) => "protected"@,
        _ => "public"@,
    }
}

/// The text of a membership's visibility; public unless written.
pub fn visibility(v: Option<Visibility>) -> (r: &'static str)
    ensures
        r@ == visibility_text(v),
{
    proof {
        reveal(visibility_text);
    }
    match v {
        Some(Visibility::Private) => "private",
        Some(Visibility::Protected) => "protected",
        _ => "public",
    }
}

#[verifier::opaque]
pub open spec fn relationship_metaclass_text(kind: RelationshipDeclKind) -> Seq<char> {
    match kind {
        RelationshipDeclKind::Specialization => "Specialization"@,
        RelationshipDeclKind::Subclassification => "Subclassification"@,
        RelationshipDeclKind::FeatureTyping => "FeatureTyping"@,
        RelationshipDeclKind::Subsetting => "Subsetting"@,
        RelationshipDeclKind::Redefinition => "Redefinition"@,
        RelationshipDeclKind::Conjugation => "Conjugation"@,
        RelationshipDeclKind::Disjoining => "Disjoining"@,
        RelationshipDeclKind::FeatureInverting => "FeatureInverting"@,
        RelationshipDeclKind::TypeFeaturing => "TypeFeaturing"@,
    }
}

/// The metaclass of a standalone relationship declaration.
pub fn relationship_metaclass(kind: RelationshipDeclKind) -> (r: &'static str)
    ensures
        r@ == relationship_metaclass_text(kind),
{
    proof {
        reveal(relationship_metaclass_text);
    }
    match kind {
        RelationshipDeclKind::Specialization => "Specialization",
        RelationshipDeclKind::Subclassification => "Subclassification",
        RelationshipDeclKind::FeatureTyping => "FeatureTyping",
        RelationshipDeclKind::Subsetting => "Subsetting",
        RelationshipDeclKind::Redefinition => "Redefinition",
        RelationshipDeclKind::Conjugation => "Conjugation",
        RelationshipDeclKind::Disjoining => "Disjoining",
        RelationshipDeclKind::FeatureInverting => "FeatureInverting",
        RelationshipDeclKind::TypeFeaturing => "TypeFeaturing",
    }
}

#[verifier::opaque]
pub open spec fn relationship_source_key_text(kind: RelationshipDeclKind) -> Seq<char> {
    match kind {
        RelationshipDeclKind::Specialization => "specific"@,
        RelationshipDeclKind::Subclassification => "subclassifier"@,
        RelationshipDeclKind::FeatureTyping => "typedFeature"@,
        RelationshipDeclKind::Subsetting => "subsettingFeature"@,
        RelationshipDeclKind::Redefinition => "redefiningFeature"@,
        RelationshipDeclKind::Conjugation => "conjugatedType"@,
        RelationshipDeclKind::Disjoining => "typeDisjoined"@,
        RelationshipDeclKind::FeatureInverting => "featureInverted"@,
        RelationshipDeclKind::TypeFeaturing => "featureOfType"@,
    }
}

/// The property its source is set under.
pub fn relationship_source_key(kind: RelationshipDeclKind) -> (r: &'static str)
    ensures
        r@ == relationship_source_key_text(kind),
{
    proof {
        reveal(relationship_source_key_text);
    }
    match kind {
        RelationshipDeclKind::Specialization => "specific",
        RelationshipDeclKind::Subclassification => "subclassifier",
        RelationshipDeclKind::FeatureTyping => "typedFeature",
        RelationshipDeclKind::Subsetting => "subsettingFeature",
        RelationshipDeclKind::Redefinition => "redefiningFeature",
        RelationshipDeclKind::Conjugation => "conjugatedType",
        RelationshipDeclKind::Disjoining => "typeDisjoined",
        RelationshipDeclKind::FeatureInverting => "featureInverted",
        RelationshipDeclKind::TypeFeaturing => "featureOfType",
    }
}

#[verifier::opaque]
pub open spec fn relationship_target_key_text(kind: RelationshipDeclKind) -> Seq<char> {
    match kind {
        RelationshipDeclKind::Specialization => "general"@,
        RelationshipDeclKind::Subclassification => "superclassifier"@,
        RelationshipDeclKind::FeatureTyping => "type"@,
        RelationshipDeclKind::Subsetting => "subsettedFeature"@,
        RelationshipDeclKind::Redefinition => "redefinedFeature"@,
        RelationshipDeclKind::Conjugation => "originalType"@,
        RelationshipDeclKind::Disjoining => "disjoiningType"@,
        RelationshipDeclKind::FeatureInverting => "invertingFeature"@,
        RelationshipDeclKind::TypeFeaturing => "featuringType"@,
    }
}

/// The property its target is set under.
pub fn relationship_target_key(kind: RelationshipDeclKind) -> (r: &'static str)
    ensures
        r@ == relationship_target_key_text(kind),
{
    proof {
        reveal(relationship_target_key_text);
    }
    match kind {
        RelationshipDeclKind::Specialization => "general",
        RelationshipDeclKind::Subclassification => "superclassifier",
        RelationshipDeclKind::FeatureTyping => "type",
        RelationshipDeclKind::Subsetting => "subsettedFeature",
        RelationshipDeclKind::Redefinition => "redefinedFeature",
        RelationshipDeclKind::Conjugation => "originalType",
        RelationshipDeclKind::Disjoining => "disjoiningType",
        RelationshipDeclKind::FeatureInverting => "invertingFeature",
        RelationshipDeclKind::TypeFeaturing => "featuringType",
    }
}

/// A library element two names deep: its package and its name.
pub struct LibraryName {
    pub package: &'static str,
    pub name: &'static str,
}

pub struct LibraryNameV {
    pub package: Seq<char>,
    pub name: Seq<char>,
}

impl LibraryName {
    pub open spec fn view(&self) -> LibraryNameV {
        LibraryNameV { package: self.package@, name: self.name@ }
    }
}

pub open spec fn library_names_view(s: Seq<LibraryName>) -> Seq<LibraryNameV> {
    s.map_values(|x: LibraryName| x@)
}

pub open spec fn lib(package: Seq<char>, name: Seq<char>) -> LibraryNameV {
    LibraryNameV { package, name }
}

/// The implied specialization bases of a definition kind (SysML 8.4.2
/// Table 31, KerML Table 10).
#[verifier::opaque]
pub open spec fn implicit_def_bases_spec(kind: DefKind) -> Seq<LibraryNameV> {
    match kind {
        DefKind::Attribute | DefKind::Enum => seq![lib("Attributes"@, "AttributeValue"@)],
        DefKind::Occurrence | DefKind::Individual => seq![lib("Occurrences"@, "Occurrence"@)],
        DefKind::Item => seq![lib("Items"@, "Item"@)],
        DefKind::Metadata => seq![lib("Metadata"@, "MetadataItem"@)],
        DefKind::Part => seq![lib("Parts"@, "Part"@)],
        DefKind::Port => seq![lib("Ports"@, "Port"@)],
        DefKind::Connection => seq![lib("Connections"@, "Connection"@)],
        DefKind::Interface => seq![lib("Interfaces"@, "Interface"@)],
        DefKind::Allocation => seq![lib("Allocations"@, "Allocation"@)],
        DefKind::Flow => seq![lib("Flows"@, "Flow"@)],
        DefKind::Action => seq![lib("Actions"@, "Action"@)],
        DefKind::State => seq![lib("States"@, "StateAction"@)],
        DefKind::Calc => seq![lib("Calculations"@, "Calculation"@)],
        DefKind::Constraint => seq![lib("Constraints"@, "ConstraintCheck"@)],
        DefKind::Requirement => seq![lib("Requirements"@, "RequirementCheck"@)],
        DefKind::Concern => seq![lib("Requirements"@, "ConcernCheck"@)],
        DefKind::Case => seq![lib("Cases"@, "Case"@)],
        DefKind::Analysis => seq![lib("AnalysisCases"@, "AnalysisCase"@)],
        DefKind::Verification => seq![lib("VerificationCases"@, "VerificationCase"@)],
        DefKind::UseCase => seq![lib("UseCases"@, "UseCase"@)],
        DefKind::View => seq![lib("Views"@, "View"@)],
        DefKind::Viewpoint => seq![lib("Views"@, "ViewpointCheck"@)],
        DefKind::Rendering => seq![lib("Views"@, "Rendering"@)],
        DefKind::Class => seq![lib("Occurrences"@, "Occurrence"@)],
        DefKind::Struct => seq![lib("Objects"@, "Object"@)],
        DefKind::Assoc | DefKind::AssocStruct => seq![lib("Links"@, "Link"@)],
        DefKind::Behavior => seq![lib("Performances"@, "Performance"@)],
        DefKind::Function => seq![lib("Performances"@, "Evaluation"@)],
        DefKind::Predicate => seq![lib("Performances"@, "BooleanEvaluation"@)],
        DefKind::Interaction => seq![lib("Transfers"@, "Transfer"@)],
        DefKind::DataType => seq![lib("Base"@, "DataValue"@)],
        DefKind::Type | DefKind::Classifier => seq![lib("Base"@, "Anything"@)],
        _ => Seq::empty(),
    }
}

/// The implied specialization bases of a definition kind (SysML 8.4.2
/// Table 31, KerML Table 10).
pub fn implicit_def_bases(kind: DefKind) -> (r: Vec<LibraryName>)
    ensures
        library_names_view(r@) == implicit_def_bases_spec(kind),
{
    proof {
        reveal(implicit_def_bases_spec);
    }
    let mut out: Vec<LibraryName> = Vec::new();
    match kind {
        DefKind::Attribute | DefKind::Enum => {
            out.push(LibraryName { package: "Attributes", name: "AttributeValue" });
        },
        DefKind::Occurrence | DefKind::Individual => {
            out.push(LibraryName { package: "Occurrences", name: "Occurrence" });
        },
        DefKind::Item => {
            out.push(LibraryName { package: "Items", name: "Item" });
        },
        DefKind::Metadata => {
            out.push(LibraryName { package: "Metadata", name: "MetadataItem" });
        },
        DefKind::Part => {
            out.push(LibraryName { package: "Parts", name: "Part" });
        },
        DefKind::Port => {
            out.push(LibraryName { package: "Ports", name: "Port" });
        },
        DefKind::Connection => {
            out.push(LibraryName { package: "Connections", name: "Connection" });
        },
        DefKind::Interface => {
            out.push(LibraryName { package: "Interfaces", name: "Interface" });
        },
        DefKind::Allocation => {
            out.push(LibraryName { package: "Allocations", name: "Allocation" });
        },
        DefKind::Flow => {
            out.push(LibraryName { package: "Flows", name: "Flow" });
        },
        DefKind::Action => {
            out.push(LibraryName { package: "Actions", name: "Action" });
        },
        DefKind::State => {
            out.push(LibraryName { package: "States", name: "StateAction" });
        },
        DefKind::Calc => {
            out.push(LibraryName { package: "Calculations", name: "Calculation" });
        },
        DefKind::Constraint => {
            out.push(LibraryName { package: "Constraints", name: "ConstraintCheck" });
        },
        DefKind::Requirement => {
            out.push(LibraryName { package: "Requirements", name: "RequirementCheck" });
        },
        DefKind::Concern => {
            out.push(LibraryName { package: "Requirements", name: "ConcernCheck" });
        },
        DefKind::Case => {
            out.push(LibraryName { package: "Cases", name: "Case" });
        },
        DefKind::Analysis => {
            out.push(LibraryName { package: "AnalysisCases", name: "AnalysisCase" });
        },
        DefKind::Verification => {
            out.push(LibraryName { package: "VerificationCases", name: "VerificationCase" });
        },
        DefKind::UseCase => {
            out.push(LibraryName { package: "UseCases", name: "UseCase" });
        },
        DefKind::View => {
            out.push(LibraryName { package: "Views", name: "View" });
        },
        DefKind::Viewpoint => {
            out.push(LibraryName { package: "Views", name: "ViewpointCheck" });
        },
        DefKind::Rendering => {
            out.push(LibraryName { package: "Views", name: "Rendering" });
        },
        DefKind::Class => {
            out.push(LibraryName { package: "Occurrences", name: "Occurrence" });
        },
        DefKind::Struct => {
            out.push(LibraryName { package: "Objects", name: "Object" });
        },
        DefKind::Assoc | DefKind::AssocStruct => {
            out.push(LibraryName { package: "Links", name: "Link" });
        },
        DefKind::Behavior => {
            out.push(LibraryName { package: "Performances", name: "Performance" });
        },
        DefKind::Function => {
            out.push(LibraryName { package: "Performances", name: "Evaluation" });
        },
        DefKind::Predicate => {
            out.push(LibraryName { package: "Performances", name: "BooleanEvaluation" });
        },
        DefKind::Interaction => {
            out.push(LibraryName { package: "Transfers", name: "Transfer" });
        },
        DefKind::DataType => {
            out.push(LibraryName { package: "Base", name: "DataValue" });
        },
        DefKind::Type | DefKind::Classifier => {
            out.push(LibraryName { package: "Base", name: "Anything" });
        },
        _ => {},
    }
    assert(library_names_view(out@) =~= implicit_def_bases_spec(kind));
    out
}

/// The implied subsetting bases of a usage kind (SysML 8.4.2 Table 32).
#[verifier::opaque]
pub open spec fn implicit_usage_bases_spec(kind: UsageKind) -> Seq<LibraryNameV> {
    match kind {
        UsageKind::Attribute | UsageKind::Enum => seq![lib("Attributes"@, "attributeValues"@)],
        UsageKind::Occurrence | UsageKind::Event => seq![lib("Occurrences"@, "occurrences"@)],
        UsageKind::Item => seq![lib("Items"@, "items"@)],
        UsageKind::Metadata => seq![lib("Metadata"@, "metadataItems"@)],
        UsageKind::Part => seq![lib("Parts"@, "parts"@)],
        UsageKind::Port => seq![lib("Ports"@, "ports"@)],
        UsageKind::Connection => seq![lib("Connections"@, "connections"@)],
        UsageKind::Interface => seq![lib("Interfaces"@, "interfaces"@)],
        UsageKind::Allocation => seq![lib("Allocations"@, "allocations"@)],
        UsageKind::Flow | UsageKind::Message => seq![lib("Flows"@, "flows"@)],
        UsageKind::SuccessionFlow => seq![lib("Flows"@, "successionFlows"@)],
        UsageKind::Action | UsageKind::Perform => seq![lib("Actions"@, "actions"@)],
        UsageKind::Accept => seq![lib("Actions"@, "acceptActions"@)],
        UsageKind::Send => seq![lib("Actions"@, "sendActions"@)],
        UsageKind::Assign => seq![lib("Actions"@, "assignmentActions"@)],
        UsageKind::Terminate => seq![lib("Actions"@, "terminateActions"@)],
        UsageKind::IfNode => seq![lib("Actions"@, "ifThenActions"@)],
        UsageKind::WhileLoop => seq![lib("Actions"@, "whileLoops"@)],
        UsageKind::ForLoop => seq![lib("Actions"@, "forLoopActions"@)],
        UsageKind::Merge | UsageKind::Decide | UsageKind::Join | UsageKind::Fork => seq![lib("Actions"@, "controls"@)],
        UsageKind::State | UsageKind::Exhibit => seq![lib("States"@, "stateActions"@)],
        UsageKind::Transition => seq![lib("Actions"@, "transitionActions"@), lib("States"@, "stateTransitions"@)],
        UsageKind::Calc => seq![lib("Calculations"@, "calculations"@)],
        UsageKind::Constraint | UsageKind::AssertConstraint => seq![lib("Constraints"@, "constraintChecks"@)],
        UsageKind::Requirement | UsageKind::Satisfy => seq![lib("Requirements"@, "requirementChecks"@)],
        UsageKind::Concern => seq![lib("Requirements"@, "concernChecks"@)],
        UsageKind::Case => seq![lib("Cases"@, "cases"@)],
        UsageKind::Analysis => seq![lib("AnalysisCases"@, "analysisCases"@)],
        UsageKind::Verification => seq![lib("VerificationCases"@, "verificationCases"@)],
        UsageKind::UseCase | UsageKind::Include => seq![lib("UseCases"@, "useCases"@)],
        UsageKind::View => seq![lib("Views"@, "views"@)],
        UsageKind::Rendering => seq![lib("Views"@, "renderings"@)],
        _ => Seq::empty(),
    }
}

/// The implied subsetting bases of a usage kind (SysML 8.4.2 Table 32).
pub fn implicit_usage_bases(kind: UsageKind) -> (r: Vec<LibraryName>)
    ensures
        library_names_view(r@) == implicit_usage_bases_spec(kind),
{
    proof {
        reveal(implicit_usage_bases_spec);
    }
    let mut out: Vec<LibraryName> = Vec::new();
    match kind {
        UsageKind::Attribute | UsageKind::Enum => {
            out.push(LibraryName { package: "Attributes", name: "attributeValues" });
        },
        UsageKind::Occurrence | UsageKind::Event => {
            out.push(LibraryName { package: "Occurrences", name: "occurrences" });
        },
        UsageKind::Item => {
            out.push(LibraryName { package: "Items", name: "items" });
        },
        UsageKind::Metadata => {
            out.push(LibraryName { package: "Metadata", name: "metadataItems" });
        },
        UsageKind::Part => {
            out.push(LibraryName { package: "Parts", name: "parts" });
        },
        UsageKind::Port => {
            out.push(LibraryName { package: "Ports", name: "ports" });
        },
        UsageKind::Connection => {
            out.push(LibraryName { package: "Connections", name: "connections" });
        },
        UsageKind::Interface => {
            out.push(LibraryName { package: "Interfaces", name: "interfaces" });
        },
        UsageKind::Allocation => {
            out.push(LibraryName { package: "Allocations", name: "allocations" });
        },
        UsageKind::Flow | UsageKind::Message => {
            out.push(LibraryName { package: "Flows", name: "flows" });
        },
        UsageKind::SuccessionFlow => {
            out.push(LibraryName { package: "Flows", name: "successionFlows" });
        },
        UsageKind::Action | UsageKind::Perform => {
            out.push(LibraryName { package: "Actions", name: "actions" });
        },
        UsageKind::Accept => {
            out.push(LibraryName { package: "Actions", name: "acceptActions" });
        },
        UsageKind::Send => {
            out.push(LibraryName { package: "Actions", name: "sendActions" });
        },
        UsageKind::Assign => {
            out.push(LibraryName { package: "Actions", name: "assignmentActions" });
        },
        UsageKind::Terminate => {
            out.push(LibraryName { package: "Actions", name: "terminateActions" });
        },
        UsageKind::IfNode => {
            out.push(LibraryName { package: "Actions", name: "ifThenActions" });
        },
        UsageKind::WhileLoop => {
            out.push(LibraryName { package: "Actions", name: "whileLoops" });
        },
        UsageKind::ForLoop => {
            out.push(LibraryName { package: "Actions", name: "forLoopActions" });
        },
        UsageKind::Merge | UsageKind::Decide | UsageKind::Join | UsageKind::Fork => {
            out.push(LibraryName { package: "Actions", name: "controls" });
        },
        UsageKind::State | UsageKind::Exhibit => {
            out.push(LibraryName { package: "States", name: "stateActions" });
        },
        UsageKind::Transition => {
            out.push(LibraryName { package: "Actions", name: "transitionActions" });
            out.push(LibraryName { package: "States", name: "stateTransitions" });
        },
        UsageKind::Calc => {
            out.push(LibraryName { package: "Calculations", name: "calculations" });
        },
        UsageKind::Constraint | UsageKind::AssertConstraint => {
            out.push(LibraryName { package: "Constraints", name: "constraintChecks" });
        },
        UsageKind::Requirement | UsageKind::Satisfy => {
            out.push(LibraryName { package: "Requirements", name: "requirementChecks" });
        },
        UsageKind::Concern => {
            out.push(LibraryName { package: "Requirements", name: "concernChecks" });
        },
        UsageKind::Case => {
            out.push(LibraryName { package: "Cases", name: "cases" });
        },
        UsageKind::Analysis => {
            out.push(LibraryName { package: "AnalysisCases", name: "analysisCases" });
        },
        UsageKind::Verification => {
            out.push(LibraryName { package: "VerificationCases", name: "verificationCases" });
        },
        UsageKind::UseCase | UsageKind::Include => {
            out.push(LibraryName { package: "UseCases", name: "useCases" });
        },
        UsageKind::View => {
            out.push(LibraryName { package: "Views", name: "views" });
        },
        UsageKind::Rendering => {
            out.push(LibraryName { package: "Views", name: "renderings" });
        },
        _ => {},
    }
    assert(library_names_view(out@) =~= implicit_usage_bases_spec(kind));
    out
}

/// The `$::`-rooted qualified name of a library element.
#[verifier::opaque]
pub open spec fn lib_qn_spec(base: LibraryNameV) -> QnV {
    QnV {
        is_global: true,
        segments: seq![
            NameV { value: base.package, span: no_span() },
            NameV { value: base.name, span: no_span() },
        ],
        span: no_span(),
    }
}

/// The `$::`-rooted qualified name of a library element: it reaches the
/// library even where a nested namespace shadows the library package's name.
pub fn lib_qn(base: &LibraryName) -> (r: QualifiedName)
    ensures
        r@ == lib_qn_spec(base@),
{
    proof {
        reveal(lib_qn_spec);
    }
    let span = Span { start: 0, end: 0 };
    let mut segments: Vec<Name> = Vec::new();
    segments.push(Name { value: base.package.to_owned(), span });
    segments.push(Name { value: base.name.to_owned(), span });
    let r = QualifiedName { is_global: true, segments, span };
    assert(r@.segments =~= lib_qn_spec(base@).segments);
    r
}

#[verifier::opaque]
pub open spec fn is_namespace_metaclass_spec(ty: Seq<char>) -> bool {
    ||| ty == "Namespace"@
    ||| ty == "Package"@
    ||| ty == "LibraryPackage"@
}

/// Namespaces that are no types: their usage members are owned through an
/// OwningMembership.
pub fn is_namespace_metaclass(ty: &str) -> (r: bool)
    ensures
        r == is_namespace_metaclass_spec(ty@),
{
    proof {
        reveal(is_namespace_metaclass_spec);
    }
    str_eq(ty, "Namespace")
        || str_eq(ty, "Package")
        || str_eq(ty, "LibraryPackage")
}

#[verifier::opaque]
pub open spec fn is_kerml_metaclass_spec(ty: Seq<char>) -> bool {
    ||| ty == "Type"@
    ||| ty == "Classifier"@
    ||| ty == "Class"@
    ||| ty == "Structure"@
    ||| ty == "DataType"@
    ||| ty == "Association"@
    ||| ty == "AssociationStructure"@
    ||| ty == "Behavior"@
    ||| ty == "Interaction"@
    ||| ty == "Function"@
    ||| ty == "Predicate"@
    ||| ty == "Metaclass"@
    ||| ty == "Feature"@
    ||| ty == "Step"@
    ||| ty == "Expression"@
    ||| ty == "BooleanExpression"@
    ||| ty == "Invariant"@
    ||| ty == "Connector"@
    ||| ty == "BindingConnector"@
    ||| ty == "Succession"@
    ||| ty == "Flow"@
    ||| ty == "SuccessionFlow"@
    ||| ty == "MetadataFeature"@
}

/// The KerML metaclasses the lowering of definitions and usages produces:
/// they declare no `isVariation`.
pub fn is_kerml_metaclass(ty: &str) -> (r: bool)
    ensures
        r == is_kerml_metaclass_spec(ty@),
{
    proof {
        reveal(is_kerml_metaclass_spec);
    }
    str_eq(ty, "Type")
        || str_eq(ty, "Classifier")
        || str_eq(ty, "Class")
        || str_eq(ty, "Structure")
        || str_eq(ty, "DataType")
        || str_eq(ty, "Association")
        || str_eq(ty, "AssociationStructure")
        || str_eq(ty, "Behavior")
        || str_eq(ty, "Interaction")
        || str_eq(ty, "Function")
        || str_eq(ty, "Predicate")
        || str_eq(ty, "Metaclass")
        || str_eq(ty, "Feature")
        || str_eq(ty, "Step")
        || str_eq(ty, "Expression")
        || str_eq(ty, "BooleanExpression")
        || str_eq(ty, "Invariant")
        || str_eq(ty, "Connector")
        || str_eq(ty, "BindingConnector")
        || str_eq(ty, "Succession")
        || str_eq(ty, "Flow")
        || str_eq(ty, "SuccessionFlow")
        || str_eq(ty, "MetadataFeature")
}

#[verifier::opaque]
pub open spec fn is_referential_metaclass_spec(ty: Seq<char>) -> bool {
    ||| ty == "AttributeUsage"@
    ||| ty == "EnumerationUsage"@
    ||| ty == "ReferenceUsage"@
    ||| ty == "BindingConnectorAsUsage"@
    ||| ty == "SuccessionAsUsage"@
    ||| ty == "EventOccurrenceUsage"@
    ||| ty == "ExhibitStateUsage"@
    ||| ty == "IncludeUseCaseUsage"@
    ||| ty == "PerformActionUsage"@
}

/// Usages that are referential whatever their declaration says.
pub fn is_referential_metaclass(ty: &str) -> (r: bool)
    ensures
        r == is_referential_metaclass_spec(ty@),
{
    proof {
        reveal(is_referential_metaclass_spec);
    }
    str_eq(ty, "AttributeUsage")
        || str_eq(ty, "EnumerationUsage")
        || str_eq(ty, "ReferenceUsage")
        || str_eq(ty, "BindingConnectorAsUsage")
        || str_eq(ty, "SuccessionAsUsage")
        || str_eq(ty, "EventOccurrenceUsage")
        || str_eq(ty, "ExhibitStateUsage")
        || str_eq(ty, "IncludeUseCaseUsage")
        || str_eq(ty, "PerformActionUsage")
}

/// The first direct generalization of a metaclass, as far as name
/// distinguishability among the textual kinds needs it.
#[verifier::opaque]
pub open spec fn direct_super(ty: Seq<char>) -> Option<Seq<char>> {
    if ty == "Classifier"@ {
        Some("Type"@)
    } else if ty == "Class"@
        || ty == "DataType"@
        || ty == "Association"@
        || ty == "Behavior"@
        || ty == "Metaclass"@ {
        Some("Classifier"@)
    } else if ty == "Structure"@ {
        Some("Class"@)
    } else if ty == "AssociationStructure"@ {
        Some("Association"@)
    } else if ty == "Interaction"@ {
        Some("Behavior"@)
    } else if ty == "Function"@ {
        Some("Behavior"@)
    } else if ty == "Predicate"@ {
        Some("Function"@)
    } else if ty == "Step"@
        || ty == "Expression"@
        || ty == "Connector"@ {
        Some("Feature"@)
    } else if ty == "BooleanExpression"@ {
        Some("Expression"@)
    } else if ty == "Invariant"@ {
        Some("BooleanExpression"@)
    } else if ty == "OccurrenceDefinition"@ {
        Some("Definition"@)
    } else if ty == "ItemDefinition"@ {
        Some("OccurrenceDefinition"@)
    } else if ty == "PartDefinition"@ {
        Some("ItemDefinition"@)
    } else if ty == "PortDefinition"@ {
        Some("OccurrenceDefinition"@)
    } else if ty == "AnalysisCaseDefinition"@
        || ty == "VerificationCaseDefinition"@
        || ty == "UseCaseDefinition"@ {
        Some("CaseDefinition"@)
    } else if ty == "ConcernDefinition"@
        || ty == "ViewpointDefinition"@ {
        Some("RequirementDefinition"@)
    } else if ty == "AttributeDefinition"@
        || ty == "MetadataDefinition"@
        || ty == "ConnectionDefinition"@
        || ty == "InterfaceDefinition"@
        || ty == "AllocationDefinition"@
        || ty == "FlowDefinition"@
        || ty == "ActionDefinition"@
        || ty == "StateDefinition"@
        || ty == "CalculationDefinition"@
        || ty == "ConstraintDefinition"@
        || ty == "RequirementDefinition"@
        || ty == "CaseDefinition"@
        || ty == "ViewDefinition"@
        || ty == "RenderingDefinition"@
        || ty == "EnumerationDefinition"@ {
        Some("Definition"@)
    } else if ty == "OccurrenceUsage"@ {
        Some("Usage"@)
    } else if ty == "ItemUsage"@ {
        Some("OccurrenceUsage"@)
    } else if ty == "PartUsage"@ {
        Some("ItemUsage"@)
    } else if ty == "PortUsage"@
        || ty == "EventOccurrenceUsage"@ {
        Some("OccurrenceUsage"@)
    } else if ty == "PerformActionUsage"@ {
        Some("ActionUsage"@)
    } else if ty == "ExhibitStateUsage"@ {
        Some("StateUsage"@)
    } else if ty == "IncludeUseCaseUsage"@ {
        Some("UseCaseUsage"@)
    } else if ty == "SatisfyRequirementUsage"@ {
        Some("RequirementUsage"@)
    } else if ty == "AssertConstraintUsage"@ {
        Some("ConstraintUsage"@)
    } else if ty == "AnalysisCaseUsage"@
        || ty == "VerificationCaseUsage"@
        || ty == "UseCaseUsage"@ {
        Some("CaseUsage"@)
    } else if ty == "ConcernUsage"@
        || ty == "ViewpointUsage"@ {
        Some("RequirementUsage"@)
    } else if ty == "SuccessionFlowUsage"@ {
        Some("FlowUsage"@)
    } else if ty == "AcceptActionUsage"@
        || ty == "SendActionUsage"@
        || ty == "AssignmentActionUsage"@
        || ty == "TerminateActionUsage"@
        || ty == "IfActionUsage"@
        || ty == "WhileLoopActionUsage"@
        || ty == "ForLoopActionUsage"@
        || ty == "MergeNode"@
        || ty == "DecisionNode"@
        || ty == "JoinNode"@
        || ty == "ForkNode"@ {
        Some("ActionUsage"@)
    } else if ty == "AttributeUsage"@
        || ty == "EnumerationUsage"@
        || ty == "MetadataUsage"@
        || ty == "ConnectionUsage"@
        || ty == "InterfaceUsage"@
        || ty == "AllocationUsage"@
        || ty == "FlowUsage"@
        || ty == "ActionUsage"@
        || ty == "StateUsage"@
        || ty == "CalculationUsage"@
        || ty == "ConstraintUsage"@
        || ty == "RequirementUsage"@
        || ty == "CaseUsage"@
        || ty == "ViewUsage"@
        || ty == "RenderingUsage"@
        || ty == "ReferenceUsage"@
        || ty == "SuccessionAsUsage"@
        || ty == "BindingConnectorAsUsage"@
        || ty == "TransitionUsage"@ {
        Some("Usage"@)
    } else {
        None
    }
}

/// The second direct generalization of a metaclass, for the two that have
/// one.
#[verifier::opaque]
pub open spec fn second_super(ty: Seq<char>) -> Option<Seq<char>> {
    if ty == "AssociationStructure"@ {
        Some("Structure"@)
    } else if ty == "Interaction"@ {
        Some("Association"@)
    } else {
        None
    }
}

fn first_general(ty: &str) -> (r: Option<&'static str>)
    ensures
        crate::state::opt_str(r) == direct_super(ty@),
{
    proof {
        reveal(direct_super);
    }
    if str_eq(ty, "Classifier") {
        Some("Type")
    } else if str_eq(ty, "Class")
        || str_eq(ty, "DataType")
        || str_eq(ty, "Association")
        || str_eq(ty, "Behavior")
        || str_eq(ty, "Metaclass") {
        Some("Classifier")
    } else if str_eq(ty, "Structure") {
        Some("Class")
    } else if str_eq(ty, "AssociationStructure") {
        Some("Association")
    } else if str_eq(ty, "Interaction") {
        Some("Behavior")
    } else if str_eq(ty, "Function") {
        Some("Behavior")
    } else if str_eq(ty, "Predicate") {
        Some("Function")
    } else if str_eq(ty, "Step")
        || str_eq(ty, "Expression")
        || str_eq(ty, "Connector") {
        Some("Feature")
    } else if str_eq(ty, "BooleanExpression") {
        Some("Expression")
    } else if str_eq(ty, "Invariant") {
        Some("BooleanExpression")
    } else if str_eq(ty, "OccurrenceDefinition") {
        Some("Definition")
    } else if str_eq(ty, "ItemDefinition") {
        Some("OccurrenceDefinition")
    } else if str_eq(ty, "PartDefinition") {
        Some("ItemDefinition")
    } else if str_eq(ty, "PortDefinition") {
        Some("OccurrenceDefinition")
    } else if str_eq(ty, "AnalysisCaseDefinition")
        || str_eq(ty, "VerificationCaseDefinition")
        || str_eq(ty, "UseCaseDefinition") {
        Some("CaseDefinition")
    } else if str_eq(ty, "ConcernDefinition")
        || str_eq(ty, "ViewpointDefinition") {
        Some("RequirementDefinition")
    } else if str_eq(ty, "AttributeDefinition")
        || str_eq(ty, "MetadataDefinition")
        || str_eq(ty, "ConnectionDefinition")
        || str_eq(ty, "InterfaceDefinition")
        || str_eq(ty, "AllocationDefinition")
        || str_eq(ty, "FlowDefinition")
        || str_eq(ty, "ActionDefinition")
        || str_eq(ty, "StateDefinition")
        || str_eq(ty, "CalculationDefinition")
        || str_eq(ty, "ConstraintDefinition")
        || str_eq(ty, "RequirementDefinition")
        || str_eq(ty, "CaseDefinition")
        || str_eq(ty, "ViewDefinition")
        || str_eq(ty, "RenderingDefinition")
        || str_eq(ty, "EnumerationDefinition") {
        Some("Definition")
    } else if str_eq(ty, "OccurrenceUsage") {
        Some("Usage")
    } else if str_eq(ty, "ItemUsage") {
        Some("OccurrenceUsage")
    } else if str_eq(ty, "PartUsage") {
        Some("ItemUsage")
    } else if str_eq(ty, "PortUsage")
        || str_eq(ty, "EventOccurrenceUsage") {
        Some("OccurrenceUsage")
    } else if str_eq(ty, "PerformActionUsage") {
        Some("ActionUsage")
    } else if str_eq(ty, "ExhibitStateUsage") {
        Some("StateUsage")
    } else if str_eq(ty, "IncludeUseCaseUsage") {
        Some("UseCaseUsage")
    } else if str_eq(ty, "SatisfyRequirementUsage") {
        Some("RequirementUsage")
    } else if str_eq(ty, "AssertConstraintUsage") {
        Some("ConstraintUsage")
    } else if str_eq(ty, "AnalysisCaseUsage")
        || str_eq(ty, "VerificationCaseUsage")
        || str_eq(ty, "UseCaseUsage") {
        Some("CaseUsage")
    } else if str_eq(ty, "ConcernUsage")
        || str_eq(ty, "ViewpointUsage") {
        Some("RequirementUsage")
    } else if str_eq(ty, "SuccessionFlowUsage") {
        Some("FlowUsage")
    } else if str_eq(ty, "AcceptActionUsage")
        || str_eq(ty, "SendActionUsage")
        || str_eq(ty, "AssignmentActionUsage")
        || str_eq(ty, "TerminateActionUsage")
        || str_eq(ty, "IfActionUsage")
        || str_eq(ty, "WhileLoopActionUsage")
        || str_eq(ty, "ForLoopActionUsage")
        || str_eq(ty, "MergeNode")
        || str_eq(ty, "DecisionNode")
        || str_eq(ty, "JoinNode")
        || str_eq(ty, "ForkNode") {
        Some("ActionUsage")
    } else if str_eq(ty, "AttributeUsage")
        || str_eq(ty, "EnumerationUsage")
        || str_eq(ty, "MetadataUsage")
        || str_eq(ty, "ConnectionUsage")
        || str_eq(ty, "InterfaceUsage")
        || str_eq(ty, "AllocationUsage")
        || str_eq(ty, "FlowUsage")
        || str_eq(ty, "ActionUsage")
        || str_eq(ty, "StateUsage")
        || str_eq(ty, "CalculationUsage")
        || str_eq(ty, "ConstraintUsage")
        || str_eq(ty, "RequirementUsage")
        || str_eq(ty, "CaseUsage")
        || str_eq(ty, "ViewUsage")
        || str_eq(ty, "RenderingUsage")
        || str_eq(ty, "ReferenceUsage")
        || str_eq(ty, "SuccessionAsUsage")
        || str_eq(ty, "BindingConnectorAsUsage")
        || str_eq(ty, "TransitionUsage") {
        Some("Usage")
    } else {
        None
    }
}

fn second_general(ty: &str) -> (r: Option<&'static str>)
    ensures
        crate::state::opt_str(r) == second_super(ty@),
{
    proof {
        reveal(second_super);
    }
    if str_eq(ty, "AssociationStructure") {
        Some("Structure")
    } else if str_eq(ty, "Interaction") {
        Some("Association")
    } else {
        None
    }
}

/// No metaclass of the table is further than this from its most general
/// one.
pub const GENERALIZATION_DEPTH: usize = 6;

/// Whether `general` is reached from `specific` in at most `depth`
/// generalization steps.
pub open spec fn conforms_within(specific: Seq<char>, general: Seq<char>, depth: nat) -> bool
    decreases depth,
{
    ||| specific == general
    ||| depth > 0 && direct_super(specific) is Some && conforms_within(
        direct_super(specific)->0,
        general,
        (depth - 1) as nat,
    )
    ||| depth > 0 && second_super(specific) is Some && conforms_within(
        second_super(specific)->0,
        general,
        (depth - 1) as nat,
    )
}

fn reaches(specific: &str, general: &str, depth: usize) -> (r: bool)
    ensures
        r == conforms_within(specific@, general@, depth as nat),
    decreases depth,
{
    if str_eq(specific, general) {
        return true;
    }
    if depth == 0 {
        return false;
    }
    if let Some(p) = first_general(specific) {
        if reaches(p, general, depth - 1) {
            return true;
        }
    }
    if let Some(p) = second_general(specific) {
        if reaches(p, general, depth - 1) {
            return true;
        }
    }
    false
}

/// Whether one of two metaclasses is, or generalizes, the other: such
/// elements of one name are not distinguishable.
#[verifier::opaque]
pub open spec fn overlap(a: Seq<char>, b: Seq<char>) -> bool {
    conforms_within(a, b, GENERALIZATION_DEPTH as nat) || conforms_within(
        b,
        a,
        GENERALIZATION_DEPTH as nat,
    )
}

/// Whether one of two metaclasses is, or generalizes, the other.
pub fn metaclasses_overlap(a: &str, b: &str) -> (r: bool)
    ensures
        r == overlap(a@, b@),
{
    proof {
        reveal(overlap);
    }
    reaches(a, b, GENERALIZATION_DEPTH) || reaches(b, a, GENERALIZATION_DEPTH)
}

/// Overlap is reflexive and symmetric.
pub proof fn law_overlap_is_symmetric(a: Seq<char>, b: Seq<char>)
    ensures
        overlap(a, a),
        overlap(a, b) == overlap(b, a),
{
    reveal(overlap);
}

} // verus!
