//! The syntax tree that the verifier checks.
use vstd::prelude::*;
use crate::semantics::ParameterKind;

verus! {

/// A source span, by offsets into the compilation unit's text.
#[derive(Clone, Copy, PartialEq, Eq, Structural, Debug)]
pub struct Location {
    pub first_offset: usize,
    pub last_offset: usize,
}

/// Unary and binary operators.
#[derive(Clone, Copy, PartialEq, Eq, Structural, Debug)]
pub enum Operator {
    Await,
    Yield,
    Delete,
    Void,
    Typeof,
    PreIncrement,
    PreDecrement,
    PostIncrement,
    PostDecrement,
    NonNull,
    Positive,
    Negative,
    BitwiseNot,
    LogicalNot,
    Add,
    Subtract,
    Multiply,
    Divide,
    Remainder,
    Power,
    BitwiseAnd,
    BitwiseXor,
    BitwiseOr,
    ShiftLeft,
    ShiftRight,
    ShiftRightUnsigned,
    Equals,
    NotEquals,
    StrictEquals,
    StrictNotEquals,
    Lt,
    Gt,
    Le,
    Ge,
    Instanceof,
    In,
    NotIn,
    Is,
    IsNot,
    As,
    LogicalAnd,
    LogicalXor,
    LogicalOr,
    NullCoalescing,
}

/// The suffix of a numeric literal.
#[derive(Clone, Copy, PartialEq, Eq, Structural, Debug)]
pub enum NumberSuffix {
    Plain,
    F,
}

/// The identifier part of a qualified identifier.
#[derive(Debug)]
pub enum QualifiedIdentifierIdentifier {
    Id(String, Location),
    Brackets(Box<Expression>),
}

/// `q::id`, `id`, `@id`, `q::[exp]` and similar.
#[derive(Debug)]
pub struct QualifiedIdentifier {
    pub location: Location,
    pub attribute: bool,
    pub qualifier: Option<Box<Expression>>,
    pub id: QualifiedIdentifierIdentifier,
}

/// An element of an array literal.
#[derive(Debug)]
pub enum Element {
    Elision,
    Expression(Expression),
    Rest(Expression, Location),
}

/// The name of an object initializer field.
#[derive(Debug)]
pub enum FieldName {
    Identifier(QualifiedIdentifier),
    Brackets(Box<Expression>),
    NumericLiteral(Box<Expression>),
    StringLiteral(Box<Expression>),
}

/// A field of an object initializer.
#[derive(Debug)]
pub enum InitializerField {
    Field { id: u64, name: FieldName, name_location: Location, non_null: bool, value: Option<Box<Expression>> },
    Rest(Box<Expression>, Location),
}

/// The name of an XML tag.
#[derive(Debug)]
pub enum XmlTagName {
    Name(String),
    Expression(Box<Expression>),
}

/// The value of an XML attribute.
#[derive(Debug)]
pub enum XmlAttributeValue {
    Value(String),
    Expression(Box<Expression>),
}

/// An XML attribute.
#[derive(Debug)]
pub struct XmlAttribute {
    pub name: String,
    pub value: XmlAttributeValue,
}

/// An XML element.
#[derive(Debug)]
pub struct XmlElement {
    pub name: XmlTagName,
    pub attributes: Vec<XmlAttribute>,
    pub attribute_expression: Option<Box<Expression>>,
    pub content: Option<Vec<XmlContent>>,
    pub closing_name: Option<XmlTagName>,
}

/// Content of an XML element or list.
#[derive(Debug)]
pub enum XmlContent {
    Characters(String),
    Markup(String),
    Element(XmlElement),
    Expression(Box<Expression>),
}

/// A parameter of a function type expression.
#[derive(Debug)]
pub struct FunctionTypeParameter {
    pub location: Location,
    pub kind: ParameterKind,
    pub type_expression: Option<Box<Expression>>,
}

/// A parameter of a function.
#[derive(Debug)]
pub struct Parameter {
    pub location: Location,
    pub kind: ParameterKind,
    pub pattern: Box<Expression>,
    pub type_annotation: Option<Box<Expression>>,
    pub default_value: Option<Box<Expression>>,
}

/// The signature of a function.
#[derive(Debug)]
pub struct FunctionSignature {
    pub this_parameter: Option<Box<Expression>>,
    pub parameters: Vec<Parameter>,
    pub result_type: Option<Box<Expression>>,
}

/// The body of a function.
#[derive(Debug)]
pub enum FunctionBody {
    Block(Block),
    Expression(Box<Expression>),
}

/// What functions, methods and lambdas have in common.
#[derive(Debug)]
pub struct FunctionCommon {
    pub id: u64,
    pub location: Location,
    pub contains_await: bool,
    pub contains_yield: bool,
    pub signature: FunctionSignature,
    pub body: Option<FunctionBody>,
}

/// The reserved namespace expressions.
#[derive(Clone, Copy, PartialEq, Eq, Structural, Debug)]
pub enum ReservedNamespace {
    Public,
    Private,
    Protected,
    Internal,
}

/// The kinds of expressions.
#[derive(Debug)]
pub enum ExpressionKind {
    QualifiedIdentifier(QualifiedIdentifier),
    Member { base: Box<Expression>, identifier: QualifiedIdentifier },
    ComputedMember { base: Box<Expression>, key: Box<Expression> },
    NumericLiteral { value: String, suffix: NumberSuffix },
    StringLiteral { value: String },
    Paren { expression: Box<Expression> },
    NullLiteral,
    BooleanLiteral { value: bool },
    ThisLiteral,
    RegExpLiteral { body: String, flags: String },
    Xml { element: XmlElement },
    XmlList { content: Vec<XmlContent> },
    XmlMarkup { markup: String },
    ArrayLiteral { elements: Vec<Element> },
    VectorLiteral { element_type: Box<Expression>, elements: Vec<Element> },
    ObjectInitializer { fields: Vec<InitializerField> },
    Invalidated,
    ImportMeta,
    New { base: Box<Expression>, arguments: Option<Vec<Expression>> },
    Descendants { base: Box<Expression>, identifier: QualifiedIdentifier },
    Filter { base: Box<Expression>, test: Box<Expression> },
    Super { object: Option<Vec<Expression>> },
    Call { base: Box<Expression>, arguments: Vec<Expression> },
    WithTypeArguments { base: Box<Expression>, arguments: Vec<Expression> },
    Unary { operator: Operator, expression: Box<Expression> },
    OptionalChaining { base: Box<Expression>, placeholder: u64, expression: Box<Expression> },
    OptionalChainingPlaceholder,
    Binary { operator: Operator, left: Box<Expression>, right: Box<Expression> },
    Conditional { test: Box<Expression>, consequent: Box<Expression>, alternative: Box<Expression> },
    Sequence { left: Box<Expression>, right: Box<Expression> },
    ReservedNamespace { namespace: ReservedNamespace },
    NullableType { base: Box<Expression> },
    NonNullableType { base: Box<Expression> },
    AnyType,
    VoidType,
    ArrayType { expression: Box<Expression> },
    TupleType { expressions: Vec<Expression> },
    FunctionType { parameters: Vec<FunctionTypeParameter>, result_type: Option<Box<Expression>> },
    Assignment { compound: Option<Operator>, left: Box<Expression>, right: Box<Expression> },
    Function { name: Option<(String, Location)>, common: FunctionCommon },
}

/// An expression node. `id` identifies the node in the database's node mapping.
#[derive(Debug)]
pub struct Expression {
    pub id: u64,
    pub location: Location,
    pub kind: ExpressionKind,
}

/// A block of directives.
#[derive(Debug)]
pub struct Block {
    pub id: u64,
    pub location: Location,
    pub directives: Vec<Directive>,
}

/// The import specifier of an import directive.
#[derive(Debug)]
pub enum ImportSpecifier {
    Identifier(String, Location),
    Wildcard,
    Recursive,
}

/// A variable binding of a variable definition.
#[derive(Debug)]
pub struct VariableBinding {
    pub location: Location,
    pub pattern: Box<Expression>,
    pub type_annotation: Option<Box<Expression>>,
    pub initializer: Option<Box<Expression>>,
}

/// Attributes of a definition.
#[derive(Debug)]
pub enum Attribute {
    Public(Location),
    Private(Location),
    Protected(Location),
    Internal(Location),
    Static(Location),
    Final(Location),
    Override(Location),
    Native(Location),
    Abstract(Location),
    Expression(Box<Expression>),
    Metadata(String),
}

/// What a function definition defines.
#[derive(Clone, Copy, PartialEq, Eq, Structural, Debug)]
pub enum FunctionNameKind {
    /// A plain function or method.
    Identifier,
    /// A class constructor.
    Constructor,
    /// A `get` accessor.
    Getter,
    /// A `set` accessor.
    Setter,
}

/// The kinds of directives.
#[derive(Debug)]
pub enum DirectiveKind {
    Empty,
    Expression { expression: Box<Expression> },
    VariableDefinition { is_const: bool, attributes: Vec<Attribute>, bindings: Vec<VariableBinding> },
    FunctionDefinition { attributes: Vec<Attribute>, name: String, name_location: Location, name_kind: FunctionNameKind, common: FunctionCommon },
    Block { block: Block },
    Labeled { substatement: Box<Directive> },
    If { test: Box<Expression>, consequent: Box<Directive>, alternative: Option<Box<Directive>> },
    Switch { cases: Vec<Vec<Directive>> },
    SwitchType { cases: Vec<Block> },
    Do { body: Box<Directive> },
    While { body: Box<Directive> },
    For { body: Box<Directive> },
    ForIn { body: Box<Directive> },
    With { body: Box<Directive> },
    Try { block: Block, catch_blocks: Vec<Block>, finally_block: Option<Block> },
    /// `import p.q.x;`, `import p.q.*;`, `import p.q.**;`, or with an alias, `import A = p.q.x;`.
    Import { package_name: Vec<String>, package_location: Location, specifier: ImportSpecifier, alias: Option<(String, Location)> },
    /// A package concatenation: `p.q.x`, `p.q.*` or `p.q.**` joining the package the directive is in.
    PackageConcat { package_name: Vec<String>, package_location: Location, specifier: ImportSpecifier },
    /// `super(...)` in a constructor.
    SuperStatement { arguments: Vec<Expression> },
    UseNamespace { expression: Box<Expression> },
    Include { nested_packages: Vec<PackageDefinition>, nested_directives: Vec<Directive> },
    Configuration { namespace: String, constant_name: String, name_location: Location, directive: Box<Directive> },
    Injection { directives: Vec<Directive> },
}

/// A directive node.
#[derive(Debug)]
pub struct Directive {
    pub id: u64,
    pub location: Location,
    pub kind: DirectiveKind,
}

/// A program: its package definitions and top-level directives.
#[derive(Debug)]
pub struct Program {
    pub packages: Vec<PackageDefinition>,
    pub directives: Vec<Directive>,
}

/// A package definition.
#[derive(Debug)]
pub struct PackageDefinition {
    pub id: u64,
    pub name: Vec<String>,
    pub block: Block,
}

} // verus!
