//! The syntax tree the model is built from.

use std::rc::Rc;
use vstd::prelude::*;

verus! {

/// A half-open byte range of a source unit.
#[derive(Clone, Copy, Debug, PartialEq, Eq, Structural)]
pub struct Span {
    pub start: u32,
    pub end: u32,
}

/// The empty span of synthesized names.
pub open spec fn no_span() -> Span {
    Span { start: 0, end: 0 }
}

/// One name of a qualified name, as written.
pub struct Name {
    pub value: String,
    pub span: Span,
}

/// A name by its text.
pub struct NameV {
    pub value: Seq<char>,
    pub span: Span,
}

impl Name {
    pub open spec fn view(&self) -> NameV {
        NameV { value: self.value@, span: self.span }
    }

    /// A copy of the name.
    pub fn duplicate(&self) -> (r: Name)
        ensures
            r@ == self@,
    {
        Name { value: self.value.clone(), span: self.span }
    }
}

/// A `::`-separated name, possibly rooted at `$::`.
pub struct QualifiedName {
    pub is_global: bool,
    pub segments: Vec<Name>,
    pub span: Span,
}

/// A qualified name by its segments' texts.
pub struct QnV {
    pub is_global: bool,
    pub segments: Seq<NameV>,
    pub span: Span,
}

pub open spec fn names_view(s: Seq<Name>) -> Seq<NameV> {
    s.map_values(|n: Name| n@)
}

impl QualifiedName {
    pub open spec fn view(&self) -> QnV {
        QnV { is_global: self.is_global, segments: names_view(self.segments@), span: self.span }
    }

    /// A copy of the qualified name.
    pub fn duplicate(&self) -> (r: QualifiedName)
        ensures
            r@ == self@,
    {
        let mut segments: Vec<Name> = Vec::new();
        let mut i: usize = 0;
        while i < self.segments.len()
            invariant
                i <= self.segments@.len(),
                names_view(segments@) =~= names_view(self.segments@).subrange(0, i as int),
            decreases self.segments@.len() - i,
        {
            segments.push(self.segments[i].duplicate());
            i += 1;
            assert(names_view(self.segments@).subrange(0, i as int)
                =~= names_view(self.segments@).subrange(0, i - 1).push(self.segments@[i - 1]@));
        }
        assert(names_view(segments@) =~= names_view(self.segments@));
        QualifiedName { is_global: self.is_global, segments, span: self.span }
    }
}

pub open spec fn qns_view(s: Seq<QualifiedName>) -> Seq<QnV> {
    s.map_values(|q: QualifiedName| q@)
}

/// Copies of the first `n` qualified names.
pub fn duplicate_prefix(v: &Vec<QualifiedName>, n: usize) -> (r: Vec<QualifiedName>)
    requires
        n <= v@.len(),
    ensures
        qns_view(r@) == qns_view(v@).subrange(0, n as int),
        n == v@.len() ==> qns_view(r@) == qns_view(v@),
{
    let mut out: Vec<QualifiedName> = Vec::new();
    let mut i: usize = 0;
    while i < n
        invariant
            i <= n <= v@.len(),
            qns_view(out@) =~= qns_view(v@).subrange(0, i as int),
        decreases n - i,
    {
        out.push(v[i].duplicate());
        i += 1;
        assert(qns_view(v@).subrange(0, i as int) =~= qns_view(v@).subrange(0, i - 1).push(
            v@[i - 1]@,
        ));
    }
    assert(qns_view(v@).subrange(0, v@.len() as int) =~= qns_view(v@));
    out
}

/// The reference a clause writes: a qualified name, or a feature chain of
/// them.
pub enum TargetRef {
    Name(QualifiedName),
    Chain(Vec<QualifiedName>),
}

/// A reference by its names' texts.
pub enum TargetV {
    Name(QnV),
    Chain(Seq<QnV>),
}

impl TargetRef {
    pub open spec fn view(&self) -> TargetV {
        match self {
            TargetRef::Name(qn) => TargetV::Name(qn@),
            TargetRef::Chain(links) => TargetV::Chain(qns_view(links@)),
        }
    }

    /// A copy of the reference.
    pub fn duplicate(&self) -> (r: TargetRef)
        ensures
            r@ == self@,
    {
        match self {
            TargetRef::Name(qn) => TargetRef::Name(qn.duplicate()),
            TargetRef::Chain(links) => {
                let copy = duplicate_prefix(links, links.len());
                assert(qns_view(copy@) =~= qns_view(links@));
                TargetRef::Chain(copy)
            },
        }
    }
}

/// A declared name and short name.
pub struct Identification {
    pub name: Option<Name>,
    pub short_name: Option<Name>,
}

/// A typing target, possibly conjugated (`~P`).
pub struct TypeRef {
    pub target: TargetRef,
    pub is_conjugated: bool,
}

#[derive(Clone, Copy, Debug, PartialEq, Eq, Structural)]
pub enum Dialect {
    Sysml,
    Kerml,
}

#[derive(Clone, Copy, Debug, PartialEq, Eq, Structural)]
pub enum Visibility {
    Public,
    Private,
    Protected,
}

#[derive(Clone, Copy, Debug, PartialEq, Eq, Structural)]
pub enum FeatureDirection {
    In,
    Out,
    InOut,
}

#[derive(Clone, Copy, Debug, PartialEq, Eq, Structural)]
pub enum PortionKind {
    Snapshot,
    Timeslice,
}

#[derive(Clone, Copy, Debug, PartialEq, Eq, Structural)]
pub enum DefKind {
    Extended,
    Type,
    Classifier,
    Class,
    Struct,
    DataType,
    Assoc,
    AssocStruct,
    Behavior,
    Interaction,
    Function,
    Predicate,
    Metaclass,
    Attribute,
    Enum,
    Occurrence,
    Individual,
    Item,
    Metadata,
    Part,
    Port,
    Connection,
    Interface,
    Allocation,
    Flow,
    Action,
    State,
    Calc,
    Constraint,
    Requirement,
    Concern,
    Case,
    Analysis,
    Verification,
    UseCase,
    View,
    Viewpoint,
    Rendering,
}

#[derive(Clone, Copy, Debug, PartialEq, Eq, Structural)]
pub enum UsageKind {
    Default,
    Ref,
    Extended,
    Feature,
    Step,
    Expr,
    BoolExpr,
    Invariant,
    Connector,
    Attribute,
    Enum,
    Occurrence,
    Item,
    Metadata,
    Part,
    Port,
    Connection,
    Interface,
    Allocation,
    Flow,
    Action,
    State,
    Calc,
    Constraint,
    Requirement,
    Concern,
    Case,
    Analysis,
    Verification,
    UseCase,
    View,
    Viewpoint,
    Rendering,
    Perform,
    Exhibit,
    Include,
    Event,
    Satisfy,
    AssertConstraint,
    Succession,
    SuccessionFlow,
    Binding,
    Message,
    Transition,
    Merge,
    Decide,
    Join,
    Fork,
    Accept,
    Send,
    Assign,
    Terminate,
    IfNode,
    WhileLoop,
    ForLoop,
}

#[derive(Clone, Copy, Debug, PartialEq, Eq, Structural)]
pub enum RelationshipDeclKind {
    Specialization,
    Subclassification,
    FeatureTyping,
    Subsetting,
    Redefinition,
    Conjugation,
    Disjoining,
    FeatureInverting,
    TypeFeaturing,
}

#[derive(Clone, Copy, Debug, PartialEq, Eq, Structural)]
pub enum BinaryOp {
    NullCoalescing,
    Implies,
    OrBar,
    CondOr,
    Xor,
    AndAmp,
    CondAnd,
    Eq,
    NotEq,
    Same,
    NotSame,
    Lt,
    Gt,
    LtEq,
    GtEq,
    Range,
    Add,
    Sub,
    Mul,
    Div,
    Rem,
    Pow,
    Caret,
}

#[derive(Clone, Copy, Debug, PartialEq, Eq, Structural)]
pub enum UnaryOp {
    Plus,
    Minus,
    Tilde,
    Not,
}

#[derive(Clone, Copy, Debug, PartialEq, Eq, Structural)]
pub enum ClassificationOp {
    IsType,
    HasType,
    AtType,
    MetaAtType,
    As,
    Meta,
}

#[derive(Clone, Copy, Debug, PartialEq, Eq, Structural)]
pub enum ValueKind {
    Bound,
    Initial,
    Default,
    DefaultInitial,
}

#[derive(Clone, Copy, Debug, PartialEq, Eq, Structural)]
pub enum TriggerKind {
    At,
    After,
    When,
}

#[derive(Clone, Copy, Debug, PartialEq, Eq, Structural)]
pub enum RequirementConstraintKind {
    Assumption,
    Requirement,
}

#[derive(Clone, Copy, Debug, PartialEq, Eq, Structural)]
pub enum StateSubactionKind {
    Entry,
    Do,
    Exit,
}

/// A literal, numbers by their source text.
pub enum Literal {
    Bool(bool),
    Text(String),
    Integer(String),
    Real(String),
    Infinity,
}

/// An argument of an invocation, possibly named.
pub struct Arg {
    pub name: Option<QualifiedName>,
    pub value: Rc<Expr>,
}

/// What follows the type of an arrow invocation.
pub enum ArrowArgs {
    Body(Rc<Expr>),
    FunctionRef(QualifiedName),
    List(Vec<Arg>),
}

pub struct Expr {
    pub kind: ExprKind,
    pub span: Span,
}

#[allow(inconsistent_fields)]
pub enum ExprKind {
    Literal(Literal),
    Null,
    Ref(QualifiedName),
    Conditional { cond: Rc<Expr>, then_branch: Rc<Expr>, else_branch: Rc<Expr> },
    Binary { op: BinaryOp, lhs: Rc<Expr>, rhs: Rc<Expr> },
    Unary { op: UnaryOp, operand: Rc<Expr> },
    Classification { op: ClassificationOp, operand: Option<Rc<Expr>>, ty: TargetRef },
    Extent { ty: TargetRef },
    ChainStep { target: Rc<Expr>, member: TargetRef },
    Index { target: Rc<Expr>, index: Rc<Expr> },
    Bracket { target: Rc<Expr>, arg: Rc<Expr> },
    Arrow { target: Rc<Expr>, ty: TargetRef, args: ArrowArgs },
    Collect { target: Rc<Expr>, body: Rc<Expr> },
    Select { target: Rc<Expr>, body: Rc<Expr> },
    Invocation { ty: TargetRef, args: Vec<Arg> },
    Constructor { ty: TargetRef, args: Vec<Arg> },
    Body { members: Vec<Member> },
    BodyTerminator,
    Sequence(Vec<Rc<Expr>>),
    MetadataAccess { target: QualifiedName },
}

pub struct Multiplicity {
    pub lower: Option<Rc<Expr>>,
    pub upper: Rc<Expr>,
}

pub struct ValuePart {
    pub kind: ValueKind,
    pub expr: Rc<Expr>,
}

pub enum FeatureSpecialization {
    TypedBy(Vec<TypeRef>),
    Subsets(Vec<TargetRef>),
    Redefines(Vec<TargetRef>),
    References(TargetRef),
    Crosses(TargetRef),
}

pub struct FeatureDeclaration {
    pub id: Identification,
    pub specializations: Vec<FeatureSpecialization>,
    pub multiplicity: Option<Multiplicity>,
    pub is_ordered: bool,
    pub is_nonunique: bool,
    pub is_sufficient: bool,
    pub conjugates: Option<TargetRef>,
    pub chains: Option<TargetRef>,
    pub inverse_of: Option<TargetRef>,
    pub featured_by: Vec<TargetRef>,
    pub disjoint_from: Vec<TargetRef>,
    pub unions: Vec<TargetRef>,
    pub intersects: Vec<TargetRef>,
    pub differences: Vec<TargetRef>,
}

/// The owned cross feature of an end declaration.
pub struct CrossFeature {
    pub direction: Option<FeatureDirection>,
    pub is_variation: bool,
    pub is_derived: bool,
    pub is_abstract: bool,
    pub is_constant: bool,
    pub is_composite: bool,
    pub is_portion: bool,
    pub is_variable: bool,
    pub decl: FeatureDeclaration,
}

pub struct UsagePrefix {
    pub direction: Option<FeatureDirection>,
    pub is_derived: bool,
    pub is_abstract: bool,
    pub is_variation: bool,
    pub is_constant: bool,
    pub is_end: bool,
    pub is_ref: bool,
    pub is_individual: bool,
    pub portion: Option<PortionKind>,
    pub is_variant: bool,
    pub metadata: Vec<QualifiedName>,
    pub end_cross: Option<CrossFeature>,
    pub is_composite: bool,
    pub is_portion: bool,
    pub is_variable: bool,
    pub is_type_member: bool,
}

pub struct ConnectorEnd {
    pub multiplicity: Option<Multiplicity>,
    pub name: Option<Name>,
    pub target: TargetRef,
}

pub struct PayloadPart {
    pub id: Identification,
    pub specializations: Vec<FeatureSpecialization>,
    pub multiplicity: Option<Multiplicity>,
    pub is_ordered: bool,
    pub is_nonunique: bool,
    pub value: Option<ValuePart>,
}

pub struct Trigger {
    pub kind: TriggerKind,
    pub expr: Rc<Expr>,
}

/// The kind-specific part of a usage.
#[allow(inconsistent_fields)]
pub enum UsageDetail {
    Plain,
    Connector { ends: Vec<ConnectorEnd> },
    Binding { ends: Vec<ConnectorEnd> },
    Succession { source: Option<ConnectorEnd>, target: ConnectorEnd },
    Flow {
        payload: Option<PayloadPart>,
        source: Option<ConnectorEnd>,
        target: Option<ConnectorEnd>,
    },
    Metadata { about: Vec<QualifiedName> },
    Satisfy { asserted: bool, negated: bool, by: Option<TargetRef> },
    Assert { negated: bool },
    Accept { payload: PayloadPart, trigger: Option<Trigger>, via: Option<Rc<Expr>> },
    Send { payload: Option<Rc<Expr>>, via: Option<Rc<Expr>>, to: Option<Rc<Expr>> },
    Assign { target: Rc<Expr>, value: Rc<Expr> },
    Terminate { target: Option<Rc<Expr>> },
    IfNode { cond: Rc<Expr>, then_body: Box<Usage>, else_body: Option<Box<Usage>> },
    WhileLoop { cond: Option<Rc<Expr>>, body: Box<Usage>, until: Option<Rc<Expr>> },
    ForLoop { var: FeatureDeclaration, seq: Rc<Expr>, body: Box<Usage> },
    Transition {
        source: Option<TargetRef>,
        trigger: Option<Box<UsageDetail>>,
        guard: Option<Rc<Expr>>,
        effect: Option<Box<Usage>>,
        target: Option<ConnectorEnd>,
        is_default: bool,
    },
}

pub struct Usage {
    pub kind: UsageKind,
    pub prefix: UsagePrefix,
    pub declaration: FeatureDeclaration,
    pub value: Option<ValuePart>,
    pub detail: UsageDetail,
    pub is_parallel: bool,
    pub body: Option<Vec<Member>>,
}

pub struct DefinitionPrefix {
    pub metadata: Vec<QualifiedName>,
    pub is_abstract: bool,
    pub is_variation: bool,
    pub is_individual: bool,
}

pub struct Definition {
    pub kind: DefKind,
    pub id: Identification,
    pub prefix: DefinitionPrefix,
    pub is_sufficient: bool,
    pub is_parallel: bool,
    pub multiplicity: Option<Multiplicity>,
    pub specializes: Vec<TargetRef>,
    pub conjugates: Vec<TargetRef>,
    pub disjoint_from: Vec<TargetRef>,
    pub unions: Vec<TargetRef>,
    pub intersects: Vec<TargetRef>,
    pub differences: Vec<TargetRef>,
    pub body: Option<Vec<Member>>,
}

pub struct Package {
    pub id: Identification,
    pub metadata: Vec<QualifiedName>,
    pub is_namespace: bool,
    pub is_library: bool,
    pub is_standard: bool,
    pub body: Option<Vec<Member>>,
}

pub struct Import {
    pub target: QualifiedName,
    pub is_namespace: bool,
    pub is_recursive: bool,
    pub is_import_all: bool,
    pub filters: Vec<Rc<Expr>>,
}

pub struct Alias {
    pub id: Identification,
    pub target: QualifiedName,
}

pub struct Comment {
    pub id: Identification,
    pub body: String,
    pub locale: Option<String>,
    pub about: Vec<QualifiedName>,
}

pub struct Documentation {
    pub id: Identification,
    pub body: String,
    pub locale: Option<String>,
}

pub struct TextualRepresentation {
    pub id: Identification,
    pub language: String,
    pub body: String,
}

pub struct Dependency {
    pub id: Identification,
    pub metadata: Vec<QualifiedName>,
    pub clients: Vec<QualifiedName>,
    pub suppliers: Vec<QualifiedName>,
}

pub struct RelationshipDecl {
    pub kind: RelationshipDeclKind,
    pub id: Identification,
    pub source: TargetRef,
    pub target: TargetRef,
}

pub struct MultiplicityDecl {
    pub id: Identification,
    pub subsets: Option<TargetRef>,
    pub range: Option<Multiplicity>,
    pub body: Option<Vec<Member>>,
}

#[allow(inconsistent_fields)]
pub enum MemberKind {
    Package(Package),
    Import(Import),
    Alias(Alias),
    Comment(Comment),
    Doc(Documentation),
    TextualRep(TextualRepresentation),
    Filter(Rc<Expr>),
    Definition(Definition),
    Usage(Usage),
    Dependency(Dependency),
    InitialNode(QualifiedName),
    Subject(Usage),
    Actor(Usage),
    Stakeholder(Usage),
    Objective(Usage),
    RequirementConstraint { kind: RequirementConstraintKind, usage: Usage },
    FramedConcern(Usage),
    RequirementVerification(Usage),
    StateSubaction { kind: StateSubactionKind, action: Option<Usage> },
    Expose(Import),
    Render(Usage),
    Return(Usage),
    Result(Rc<Expr>),
    Relationship(RelationshipDecl),
    MultiplicityDecl(MultiplicityDecl),
}

/// One member of a body: its kind, with the parts any member can carry.
pub struct Member {
    pub kind: MemberKind,
    pub visibility: Option<Visibility>,
    pub leading_then: bool,
    pub leading_then_multiplicity: Option<Multiplicity>,
    pub span: Span,
}

/// A parsed source unit.
pub struct SourceUnit {
    pub dialect: Dialect,
    pub members: Vec<Member>,
}

/// A named unit of a model, of its library or of the user's.
pub struct ModelUnit {
    pub name: String,
    pub unit: SourceUnit,
    pub is_library: bool,
}

} // verus!
