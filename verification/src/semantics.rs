//! The semantic model that the verifier maps program nodes to: types,
//! values, properties, scopes and the database that holds them.
use vstd::prelude::*;
use std::collections::HashMap;
use crate::ast::Location;
use crate::diagnostics::Diagnostic;

verus! {

broadcast use vstd::std_specs::hash::group_hash_axioms;

/// A type of the semantic model. Built-in types are plain variants;
/// nullable and non-nullable forms and the parameterized `Array`, `Vector`
/// and `Promise` are built structurally; tuples, function types and user
/// definitions are indices into the database's type table.
#[derive(Debug)]
pub enum Ty {
    Any,
    Void,
    Object,
    Boolean,
    Number,
    Float,
    Int,
    Uint,
    String,
    Namespace,
    Class,
    Function,
    RegExp,
    Xml,
    XmlList,
    Date,
    /// The parameterized `Array` class itself, before substitution.
    Array,
    /// The parameterized `Vector` class itself, before substitution.
    Vector,
    /// The parameterized `Promise` class itself, before substitution.
    Promise,
    Invalidation,
    Unresolved,
    /// `T?`
    Nullable(Box<Ty>),
    /// `T!`
    NonNullable(Box<Ty>),
    /// `Array.<T>`
    ArrayOf(Box<Ty>),
    /// `Vector.<T>`
    VectorOf(Box<Ty>),
    /// `Promise.<T>`
    PromiseOf(Box<Ty>),
    Def(usize),
    /// The generic class or interface at an index of the type table,
    /// applied to `*` for each of its type parameters.
    AppliedToAny(usize),
}

impl Clone for Ty {
    fn clone(&self) -> (r: Self)
        ensures
            r == *self,
        decreases self,
    {
        match self {
            Ty::Any => Ty::Any,
            Ty::Void => Ty::Void,
            Ty::Object => Ty::Object,
            Ty::Boolean => Ty::Boolean,
            Ty::Number => Ty::Number,
            Ty::Float => Ty::Float,
            Ty::Int => Ty::Int,
            Ty::Uint => Ty::Uint,
            Ty::String => Ty::String,
            Ty::Namespace => Ty::Namespace,
            Ty::Class => Ty::Class,
            Ty::Function => Ty::Function,
            Ty::RegExp => Ty::RegExp,
            Ty::Xml => Ty::Xml,
            Ty::XmlList => Ty::XmlList,
            Ty::Date => Ty::Date,
            Ty::Array => Ty::Array,
            Ty::Vector => Ty::Vector,
            Ty::Promise => Ty::Promise,
            Ty::Invalidation => Ty::Invalidation,
            Ty::Unresolved => Ty::Unresolved,
            Ty::Nullable(b) => Ty::Nullable(Box::new((**b).clone())),
            Ty::NonNullable(b) => Ty::NonNullable(Box::new((**b).clone())),
            Ty::ArrayOf(b) => Ty::ArrayOf(Box::new((**b).clone())),
            Ty::VectorOf(b) => Ty::VectorOf(Box::new((**b).clone())),
            Ty::PromiseOf(b) => Ty::PromiseOf(Box::new((**b).clone())),
            Ty::Def(i) => Ty::Def(*i),
            Ty::AppliedToAny(i) => Ty::AppliedToAny(*i),
        }
    }
}

/// Copies a list of types.
pub fn clone_types(v: &Vec<Ty>) -> (r: Vec<Ty>)
    ensures
        r@ == v@,
{
    let mut r: Vec<Ty> = Vec::new();
    let mut i: usize = 0;
    while i < v.len()
        invariant
            i <= v@.len(),
            r@ == v@.take(i as int),
        decreases v@.len() - i,
    {
        r.push(v[i].clone());
        proof { assert(v@.take(i + 1) =~= v@.take(i as int).push(v@[i as int])); }
        i = i + 1;
    }
    proof { assert(v@.take(v@.len() as int) =~= v@); }
    r
}

/// Copies an optional type.
pub fn clone_opt_ty(t: &Option<Ty>) -> (r: Option<Ty>)
    ensures
        r == *t,
{
    match t {
        Some(x) => Some(x.clone()),
        None => None,
    }
}

impl Ty {
    /// Whether two types are the same type.
    pub fn same(&self, other: &Ty) -> (r: bool)
        ensures
            r == (*self == *other),
        decreases self,
    {
        match (self, other) {
            (Ty::Any, Ty::Any) => true,
            (Ty::Void, Ty::Void) => true,
            (Ty::Object, Ty::Object) => true,
            (Ty::Boolean, Ty::Boolean) => true,
            (Ty::Number, Ty::Number) => true,
            (Ty::Float, Ty::Float) => true,
            (Ty::Int, Ty::Int) => true,
            (Ty::Uint, Ty::Uint) => true,
            (Ty::String, Ty::String) => true,
            (Ty::Namespace, Ty::Namespace) => true,
            (Ty::Class, Ty::Class) => true,
            (Ty::Function, Ty::Function) => true,
            (Ty::RegExp, Ty::RegExp) => true,
            (Ty::Xml, Ty::Xml) => true,
            (Ty::XmlList, Ty::XmlList) => true,
            (Ty::Date, Ty::Date) => true,
            (Ty::Array, Ty::Array) => true,
            (Ty::Vector, Ty::Vector) => true,
            (Ty::Promise, Ty::Promise) => true,
            (Ty::Invalidation, Ty::Invalidation) => true,
            (Ty::Unresolved, Ty::Unresolved) => true,
            (Ty::Nullable(a), Ty::Nullable(b)) => (**a).same(&**b),
            (Ty::NonNullable(a), Ty::NonNullable(b)) => (**a).same(&**b),
            (Ty::ArrayOf(a), Ty::ArrayOf(b)) => (**a).same(&**b),
            (Ty::VectorOf(a), Ty::VectorOf(b)) => (**a).same(&**b),
            (Ty::PromiseOf(a), Ty::PromiseOf(b)) => (**a).same(&**b),
            (Ty::Def(i), Ty::Def(j)) => *i == *j,
            (Ty::AppliedToAny(i), Ty::AppliedToAny(j)) => *i == *j,
            _ => false,
        }
    }

    /// Whether the type is the given type without components.
    pub fn is(&self, simple: Ty) -> (r: bool)
        ensures
            r == (*self == simple),
    {
        self.same(&simple)
    }
}

/// Kind of a function parameter.
#[derive(Clone, Copy, PartialEq, Eq, Structural, Debug)]
pub enum ParameterKind {
    Required,
    Optional,
    Rest,
}

impl ParameterKind {
    pub open spec fn spec_may_be_followed_by(self, next: ParameterKind) -> bool {
        match self {
            ParameterKind::Required => true,
            ParameterKind::Optional => next == ParameterKind::Optional || next == ParameterKind::Rest,
            ParameterKind::Rest => false,
        }
    }

    /// Whether a parameter of this kind may be followed by one of kind `next`.
    pub fn may_be_followed_by(self, next: ParameterKind) -> (r: bool)
        ensures
            r == self.spec_may_be_followed_by(next),
    {
        match self {
            ParameterKind::Required => true,
            ParameterKind::Optional => next == ParameterKind::Optional || next == ParameterKind::Rest,
            ParameterKind::Rest => false,
        }
    }
}

/// A parameter of a function type.
#[derive(Debug)]
pub struct FunctionParam {
    pub kind: ParameterKind,
    pub static_type: Ty,
}

impl FunctionParam {
    pub fn clone_param(&self) -> (r: FunctionParam)
        ensures
            r == *self,
    {
        FunctionParam { kind: self.kind, static_type: self.static_type.clone() }
    }
}

/// The greatest integer up to which every integer is exactly a `Number`
/// (a double-precision floating-point number): 2 to the 53rd.
pub const MAX_EXACT_INTEGER: i64 = 9007199254740992;

/// Value of a numeric constant. Integer types hold their value; a `Number`
/// that is an integer of at most `MAX_EXACT_INTEGER` in magnitude holds it
/// exactly; any other value of the `Number` or `float` type (a
/// floating-point number) is kept without its value.
#[derive(Clone, Copy, PartialEq, Eq, Structural, Debug)]
pub enum NumberValue {
    Int(i32),
    Uint(u32),
    /// A `Number` value that is exactly this integer.
    Integer(i64),
    /// A `Number` or `float` value other than NaN, whose value is not tracked.
    Real,
    /// The `Number` value NaN.
    NaN,
}

/// How an implicit conversion changed a value.
#[derive(Clone, Copy, PartialEq, Eq, Structural, Debug)]
pub enum ConversionKind {
    NonNullableToNullable,
    AsIsToNullable,
    Widening,
}

/// The system namespaces.
#[derive(Clone, Copy, PartialEq, Eq, Structural, Debug)]
pub enum SystemNamespaceKind {
    Public,
    Private,
    Protected,
    Internal,
}

/// What a property of a scope, package or class is.
#[derive(Debug)]
pub enum PropertyKind {
    Variable { static_type: Ty, read_only: bool, write_only: bool, constant: Option<ConstantValue> },
    /// A method; a final method may not be overridden.
    Method { signature: Ty, is_final: bool },
    /// A property defined by a getter, a setter or both: `getter` and
    /// `setter` are their signatures once known.
    Virtual { static_type: Ty, getter: Option<Ty>, setter: Option<Ty> },
    Type { ty: Ty },
    Namespace { kind: SystemNamespaceKind },
}

/// A named property.
#[derive(Debug)]
pub struct Property {
    pub name: String,
    pub kind: PropertyKind,
    pub has_capture: bool,
    pub location: Option<Location>,
}

/// The value of a compile-time constant variable.
#[derive(Debug)]
pub enum ConstantValue {
    Boolean(bool),
    Number(NumberValue),
    String(String),
    Null,
    Undefined,
}

impl ConstantValue {
    /// The constant entity of type `ty` holding this value.
    pub open spec fn spec_to_entity(self, ty: Ty) -> Entity {
        match self {
            ConstantValue::Boolean(value) => Entity::BooleanConstant { value, ty },
            ConstantValue::Number(value) => Entity::NumberConstant { value, ty },
            ConstantValue::String(value) => Entity::StringConstant { value, ty },
            ConstantValue::Null => Entity::NullConstant { ty },
            ConstantValue::Undefined => Entity::UndefinedConstant { ty },
        }
    }

    pub fn to_entity(&self, ty: Ty) -> (r: Entity)
        ensures
            r == self.spec_to_entity(ty),
    {
        match self {
            ConstantValue::Boolean(value) => Entity::BooleanConstant { value: *value, ty },
            ConstantValue::Number(value) => Entity::NumberConstant { value: *value, ty },
            ConstantValue::String(value) => Entity::StringConstant { value: value.clone(), ty },
            ConstantValue::Null => Entity::NullConstant { ty },
            ConstantValue::Undefined => Entity::UndefinedConstant { ty },
        }
    }

    pub fn copy(&self) -> (r: ConstantValue)
        ensures
            r == *self,
    {
        match self {
            ConstantValue::Boolean(value) => ConstantValue::Boolean(*value),
            ConstantValue::Number(value) => ConstantValue::Number(*value),
            ConstantValue::String(value) => ConstantValue::String(value.clone()),
            ConstantValue::Null => ConstantValue::Null,
            ConstantValue::Undefined => ConstantValue::Undefined,
        }
    }
}

impl Property {
    pub fn clone_property(&self) -> (r: Property)
        ensures
            r == *self,
    {
        Property {
            name: self.name.clone(),
            kind: clone_property_kind(&self.kind),
            has_capture: self.has_capture,
            location: self.location,
        }
    }
}

/// Where a resolved property reference points.
#[derive(Clone, Copy, PartialEq, Eq, Structural, Debug)]
pub enum ReferenceBase {
    /// A property of a package or class (a fixture).
    Fixture,
    /// The property at `index` of the scope at `scope`.
    Scope { scope: usize, index: usize },
}

/// An entity of the semantic model that an expression resolves to.
#[derive(Debug)]
pub enum Entity {
    Invalidation,
    Unresolved,
    Value { ty: Ty },
    Conversion { ty: Ty, from: Ty, kind: ConversionKind },
    BooleanConstant { value: bool, ty: Ty },
    NumberConstant { value: NumberValue, ty: Ty },
    StringConstant { value: String, ty: Ty },
    NullConstant { ty: Ty },
    UndefinedConstant { ty: Ty },
    NamespaceConstant { kind: SystemNamespaceKind },
    TypeReference { ty: Ty },
    PropertyReference { base: ReferenceBase, name: String, property: Box<PropertyKind> },
    DynamicReference { ty: Ty },
    ThisObject { ty: Ty },
    LambdaObject { activation: usize, signature: Option<Ty> },
    FilterValue { scope: usize, ty: Ty },
    MetaProperty,
}

impl Clone for Entity {
    fn clone(&self) -> (r: Self)
        ensures
            r == *self,
    {
        match self {
            Entity::Invalidation => Entity::Invalidation,
            Entity::Unresolved => Entity::Unresolved,
            Entity::Value { ty } => Entity::Value { ty: ty.clone() },
            Entity::Conversion { ty, from, kind } => Entity::Conversion { ty: ty.clone(), from: from.clone(), kind: *kind },
            Entity::BooleanConstant { value, ty } => Entity::BooleanConstant { value: *value, ty: ty.clone() },
            Entity::NumberConstant { value, ty } => Entity::NumberConstant { value: *value, ty: ty.clone() },
            Entity::StringConstant { value, ty } => Entity::StringConstant { value: value.clone(), ty: ty.clone() },
            Entity::NullConstant { ty } => Entity::NullConstant { ty: ty.clone() },
            Entity::UndefinedConstant { ty } => Entity::UndefinedConstant { ty: ty.clone() },
            Entity::NamespaceConstant { kind } => Entity::NamespaceConstant { kind: *kind },
            Entity::TypeReference { ty } => Entity::TypeReference { ty: ty.clone() },
            Entity::PropertyReference { base, name, property } => Entity::PropertyReference {
                base: *base,
                name: name.clone(),
                property: Box::new(clone_property_kind(property)),
            },
            Entity::DynamicReference { ty } => Entity::DynamicReference { ty: ty.clone() },
            Entity::ThisObject { ty } => Entity::ThisObject { ty: ty.clone() },
            Entity::LambdaObject { activation, signature } => Entity::LambdaObject { activation: *activation, signature: clone_opt_ty(signature) },
            Entity::FilterValue { scope, ty } => Entity::FilterValue { scope: *scope, ty: ty.clone() },
            Entity::MetaProperty => Entity::MetaProperty,
        }
    }
}

/// Copies a property kind.
pub fn clone_property_kind(k: &PropertyKind) -> (r: PropertyKind)
    ensures
        r == *k,
{
    match k {
        PropertyKind::Variable { static_type, read_only, write_only, constant } => PropertyKind::Variable {
            static_type: static_type.clone(),
            read_only: *read_only,
            write_only: *write_only,
            constant: match constant {
                Some(c) => Some(c.copy()),
                None => None,
            },
        },
        PropertyKind::Method { signature, is_final } => PropertyKind::Method { signature: signature.clone(), is_final: *is_final },
        PropertyKind::Virtual { static_type, getter, setter } => PropertyKind::Virtual {
            static_type: static_type.clone(),
            getter: clone_opt_ty(getter),
            setter: clone_opt_ty(setter),
        },
        PropertyKind::Type { ty } => PropertyKind::Type { ty: ty.clone() },
        PropertyKind::Namespace { kind } => PropertyKind::Namespace { kind: *kind },
    }
}

/// Copies an optional entity.
pub fn clone_opt(e: &Option<Entity>) -> (r: Option<Entity>)
    ensures
        r == *e,
{
    match e {
        Some(x) => Some(x.clone()),
        None => None,
    }
}

pub open spec fn is_numeric(t: Ty) -> bool {
    t == Ty::Number || t == Ty::Float || t == Ty::Int || t == Ty::Uint
}

/// Whether `t` is one of the numeric types `Number`, `float`, `int` and `uint`.
pub fn numeric(t: &Ty) -> (r: bool)
    ensures
        r == is_numeric(*t),
{
    matches!(t, Ty::Number | Ty::Float | Ty::Int | Ty::Uint)
}

impl Entity {
    /// The static type of an entity.
    pub open spec fn spec_static_type(self) -> Ty {
        match self {
            Entity::Invalidation => Ty::Invalidation,
            Entity::Unresolved => Ty::Unresolved,
            Entity::Value { ty } => ty,
            Entity::Conversion { ty, .. } => ty,
            Entity::BooleanConstant { ty, .. } => ty,
            Entity::NumberConstant { ty, .. } => ty,
            Entity::StringConstant { ty, .. } => ty,
            Entity::NullConstant { ty } => ty,
            Entity::UndefinedConstant { ty } => ty,
            Entity::NamespaceConstant { .. } => Ty::Namespace,
            Entity::TypeReference { .. } => Ty::Class,
            Entity::PropertyReference { property, .. } => match *property {
                PropertyKind::Variable { static_type, .. } => static_type,
                PropertyKind::Method { signature, .. } => signature,
                PropertyKind::Virtual { static_type, .. } => static_type,
                PropertyKind::Type { .. } => Ty::Class,
                PropertyKind::Namespace { .. } => Ty::Namespace,
            },
            Entity::DynamicReference { ty } => ty,
            Entity::ThisObject { ty } => ty,
            Entity::LambdaObject { .. } => Ty::Function,
            Entity::FilterValue { ty, .. } => ty,
            Entity::MetaProperty => Ty::Any,
        }
    }

    pub fn static_type(&self) -> (r: Ty)
        ensures
            r == self.spec_static_type(),
    {
        match self {
            Entity::Invalidation => Ty::Invalidation,
            Entity::Unresolved => Ty::Unresolved,
            Entity::Value { ty } => ty.clone(),
            Entity::Conversion { ty, .. } => ty.clone(),
            Entity::BooleanConstant { ty, .. } => ty.clone(),
            Entity::NumberConstant { ty, .. } => ty.clone(),
            Entity::StringConstant { ty, .. } => ty.clone(),
            Entity::NullConstant { ty } => ty.clone(),
            Entity::UndefinedConstant { ty } => ty.clone(),
            Entity::NamespaceConstant { .. } => Ty::Namespace,
            Entity::TypeReference { .. } => Ty::Class,
            Entity::PropertyReference { property, .. } => match &**property {
                PropertyKind::Variable { static_type, .. } => static_type.clone(),
                PropertyKind::Method { signature, .. } => signature.clone(),
                PropertyKind::Virtual { static_type, .. } => static_type.clone(),
                PropertyKind::Type { .. } => Ty::Class,
                PropertyKind::Namespace { .. } => Ty::Namespace,
            },
            Entity::DynamicReference { ty } => ty.clone(),
            Entity::ThisObject { ty } => ty.clone(),
            Entity::LambdaObject { .. } => Ty::Function,
            Entity::FilterValue { ty, .. } => ty.clone(),
            Entity::MetaProperty => Ty::Any,
        }
    }

    /// The type that an entity denotes, if it is a reference to a type.
    pub open spec fn spec_as_type(self) -> Option<Ty> {
        match self {
            Entity::TypeReference { ty } => Some(ty),
            _ => None,
        }
    }

    pub fn as_type(&self) -> (r: Option<Ty>)
        ensures
            r == self.spec_as_type(),
    {
        match self {
            Entity::TypeReference { ty } => Some(ty.clone()),
            _ => None,
        }
    }

    pub open spec fn is_constant(self) -> bool {
        match self {
            Entity::BooleanConstant { .. } | Entity::NumberConstant { .. } | Entity::StringConstant { .. }
            | Entity::NullConstant { .. } | Entity::UndefinedConstant { .. }
            | Entity::NamespaceConstant { .. } => true,
            _ => false,
        }
    }

    /// Whether the entity is a compile-time constant.
    pub fn constant(&self) -> (r: bool)
        ensures
            r == self.is_constant(),
    {
        match self {
            Entity::BooleanConstant { .. } | Entity::NumberConstant { .. } | Entity::StringConstant { .. }
            | Entity::NullConstant { .. } | Entity::UndefinedConstant { .. }
            | Entity::NamespaceConstant { .. } => true,
            _ => false,
        }
    }

    /// The compile-time constant value an entity holds, if it is a
    /// Boolean, number, string, `null` or `undefined` constant.
    pub open spec fn spec_constant_value(self) -> Option<ConstantValue> {
        match self {
            Entity::BooleanConstant { value, .. } => Some(ConstantValue::Boolean(value)),
            Entity::NumberConstant { value, .. } => Some(ConstantValue::Number(value)),
            Entity::StringConstant { value, .. } => Some(ConstantValue::String(value)),
            Entity::NullConstant { .. } => Some(ConstantValue::Null),
            Entity::UndefinedConstant { .. } => Some(ConstantValue::Undefined),
            _ => None,
        }
    }

    pub fn constant_value(&self) -> (r: Option<ConstantValue>)
        ensures
            r == self.spec_constant_value(),
    {
        match self {
            Entity::BooleanConstant { value, .. } => Some(ConstantValue::Boolean(*value)),
            Entity::NumberConstant { value, .. } => Some(ConstantValue::Number(*value)),
            Entity::StringConstant { value, .. } => Some(ConstantValue::String(value.clone())),
            Entity::NullConstant { .. } => Some(ConstantValue::Null),
            Entity::UndefinedConstant { .. } => Some(ConstantValue::Undefined),
            _ => None,
        }
    }

    pub open spec fn spec_read_only(self) -> bool {
        match self {
            Entity::PropertyReference { property, .. } => match *property {
                PropertyKind::Variable { read_only, .. } => read_only,
                PropertyKind::Virtual { setter, .. } => setter is None,
                _ => true,
            },
            Entity::DynamicReference { .. } => false,
            _ => true,
        }
    }

    /// Whether the entity cannot be assigned to.
    pub fn read_only(&self) -> (r: bool)
        ensures
            r == self.spec_read_only(),
    {
        match self {
            Entity::PropertyReference { property, .. } => match &**property {
                PropertyKind::Variable { read_only, .. } => *read_only,
                PropertyKind::Virtual { setter, .. } => setter.is_none(),
                _ => true,
            },
            Entity::DynamicReference { .. } => false,
            _ => true,
        }
    }

    pub open spec fn spec_write_only(self) -> bool {
        match self {
            Entity::PropertyReference { property, .. } => match *property {
                PropertyKind::Variable { write_only, .. } => write_only,
                PropertyKind::Virtual { getter, .. } => getter is None,
                _ => false,
            },
            _ => false,
        }
    }

    /// Whether the entity cannot be read.
    pub fn write_only(&self) -> (r: bool)
        ensures
            r == self.spec_write_only(),
    {
        match self {
            Entity::PropertyReference { property, .. } => match &**property {
                PropertyKind::Variable { write_only, .. } => *write_only,
                PropertyKind::Virtual { getter, .. } => getter.is_none(),
                _ => false,
            },
            _ => false,
        }
    }

    pub open spec fn spec_deletable(self) -> bool {
        self is DynamicReference
    }

    /// Whether the `delete` operator applies to the entity.
    pub fn deletable(&self) -> (r: bool)
        ensures
            r == self.spec_deletable(),
    {
        matches!(self, Entity::DynamicReference { .. })
    }

    pub fn is_invalidation(&self) -> (r: bool)
        ensures
            r == (*self is Invalidation),
    {
        matches!(self, Entity::Invalidation)
    }
}

/// A user-defined class.
#[derive(Debug)]
pub struct ClassDef {
    pub name: String,
    pub is_static: bool,
    pub is_abstract: bool,
    pub extends: Option<Ty>,
    pub type_param_count: usize,
    pub constructor: Option<Ty>,
    pub is_options_class: bool,
    pub static_properties: Vec<Property>,
    pub prototype: Vec<Property>,
}

/// A user-defined enumeration.
#[derive(Debug)]
pub struct EnumDef {
    pub name: String,
    pub members: Vec<String>,
}

/// A user-defined interface.
#[derive(Debug)]
pub struct InterfaceDef {
    pub name: String,
    pub type_param_count: usize,
    pub prototype: Vec<Property>,
}

/// The definition of a constructed type.
#[derive(Debug)]
pub enum TypeDef {
    Tuple(Vec<Ty>),
    Function(Vec<FunctionParam>, Ty),
    Class(ClassDef),
    Enum(EnumDef),
    Interface(InterfaceDef),
}

/// What kind of scope a scope is.
#[derive(Debug)]
pub enum ScopeKind {
    Plain,
    /// The scope of a function body; `this_type` is the type of `this`.
    Activation { this_type: Option<Ty> },
    /// The scope of an XML filter operation over a value of `base_type`.
    Filter { base_type: Ty },
    Package { package: usize },
    Class { ty: Ty },
}

/// An import in a scope.
#[derive(Debug)]
pub enum Import {
    PackageWildcard { package: usize },
    PackageRecursive { package: usize },
    PackageProperty { package: usize, name: String },
}

impl Import {
    pub fn clone_import(&self) -> (r: Import)
        ensures
            r == *self,
    {
        match self {
            Import::PackageWildcard { package } => Import::PackageWildcard { package: *package },
            Import::PackageRecursive { package } => Import::PackageRecursive { package: *package },
            Import::PackageProperty { package, name } => Import::PackageProperty { package: *package, name: name.clone() },
        }
    }
}

/// A scope.
#[derive(Debug)]
pub struct Scope {
    pub kind: ScopeKind,
    pub parent: Option<usize>,
    pub properties: Vec<Property>,
    pub imports: Vec<Import>,
}

/// A package.
#[derive(Debug)]
pub struct Package {
    pub name: Vec<String>,
    pub properties: Vec<Property>,
    /// The packages concatenated to this one.
    pub concats: Vec<usize>,
}

/// The database: the semantic model of a program and what the verifier
/// has mapped its nodes to.
pub struct Database {
    pub types: Vec<TypeDef>,
    pub scopes: Vec<Scope>,
    pub packages: Vec<Package>,
    pub node_mapping: HashMap<u64, Option<Entity>>,
    pub node_invalidation_mapping: HashMap<u64, bool>,
    pub config_constants: Vec<(String, String)>,
    pub config_constants_result: Vec<(String, Entity)>,
    pub diagnostics: Vec<Diagnostic>,
}

impl ScopeKind {
    pub fn clone_kind(&self) -> (r: ScopeKind)
        ensures
            r == *self,
    {
        match self {
            ScopeKind::Plain => ScopeKind::Plain,
            ScopeKind::Activation { this_type } => ScopeKind::Activation {
                this_type: match this_type {
                    Some(t) => Some(t.clone()),
                    None => None,
                },
            },
            ScopeKind::Filter { base_type } => ScopeKind::Filter { base_type: base_type.clone() },
            ScopeKind::Package { package } => ScopeKind::Package { package: *package },
            ScopeKind::Class { ty } => ScopeKind::Class { ty: ty.clone() },
        }
    }
}

/// The definition of a type of the type table `types`, if `t` is one.
pub open spec fn def_of(types: Seq<TypeDef>, t: Ty) -> Option<TypeDef> {
    match t {
        Ty::Def(i) | Ty::AppliedToAny(i) => if i < types.len() { Some(types[i as int]) } else { None },
        _ => None,
    }
}

impl Database {
    /// A new database whose scope 0 is the top-level scope, which imports
    /// the top-level package 0.
    pub fn new() -> (r: Database)
        ensures
            r.types@.len() == 0,
            r.scopes@.len() == 1,
            r.scopes@[0].kind == ScopeKind::Plain,
            r.scopes@[0].parent is None,
            r.scopes@[0].properties@.len() == 0,
            r.scopes@[0].imports@ == seq![Import::PackageWildcard { package: 0 }],
            r.packages@.len() == 1,
            r.packages@[0].properties@.len() == 0,
            r.node_mapping@ == Map::<u64, Option<Entity>>::empty(),
            r.node_invalidation_mapping@ == Map::<u64, bool>::empty(),
            r.diagnostics@.len() == 0,
            r.config_constants@.len() == 0,
            r.config_constants_result@.len() == 0,
    {
        let mut imports: Vec<Import> = Vec::new();
        imports.push(Import::PackageWildcard { package: 0 });
        let mut scopes: Vec<Scope> = Vec::new();
        scopes.push(Scope { kind: ScopeKind::Plain, parent: None, properties: Vec::new(), imports });
        let mut packages: Vec<Package> = Vec::new();
        packages.push(Package { name: Vec::new(), properties: Vec::new(), concats: Vec::new() });
        Database {
            types: Vec::new(),
            scopes,
            packages,
            node_mapping: HashMap::new(),
            node_invalidation_mapping: HashMap::new(),
            config_constants: Vec::new(),
            config_constants_result: Vec::new(),
            diagnostics: Vec::new(),
        }
    }

    /// Sets a configuration constant: `name` is `namespace::constant`.
    pub fn set_config_constant(&mut self, name: String, value: String)
        ensures
            final(self).config_constants@ == old(self).config_constants@.push((name, value)),
            *final(self) == (Database { config_constants: final(self).config_constants, ..*old(self) }),
    {
        self.config_constants.push((name, value));
    }

    /// The definition of a type of the type table, if `t` is one.
    pub open spec fn def_of(self, t: Ty) -> Option<TypeDef> {
        def_of(self.types@, t)
    }

    pub fn get_def(&self, t: &Ty) -> (r: Option<&TypeDef>)
        ensures
            r matches Some(d) ==> self.def_of(*t) == Some(*d),
            r is None ==> self.def_of(*t) is None,
    {
        match t {
            Ty::Def(i) | Ty::AppliedToAny(i) => if *i < self.types.len() { Some(&self.types[*i]) } else { None },
            _ => None,
        }
    }

    pub open spec fn is_tuple(self, t: Ty) -> bool {
        self.def_of(t) matches Some(TypeDef::Tuple(_))
    }

    pub open spec fn is_function_type(self, t: Ty) -> bool {
        self.def_of(t) matches Some(TypeDef::Function(_, _))
    }

    pub open spec fn is_enum(self, t: Ty) -> bool {
        self.def_of(t) matches Some(TypeDef::Enum(_))
    }

    pub open spec fn is_class(self, t: Ty) -> bool {
        self.def_of(t) matches Some(TypeDef::Class(_))
    }

    pub open spec fn is_interface(self, t: Ty) -> bool {
        self.def_of(t) matches Some(TypeDef::Interface(_))
    }

    pub fn tuple(&self, t: &Ty) -> (r: bool)
        ensures
            r == self.is_tuple(*t),
    {
        matches!(self.get_def(t), Some(TypeDef::Tuple(_)))
    }

    pub fn function_type(&self, t: &Ty) -> (r: bool)
        ensures
            r == self.is_function_type(*t),
    {
        matches!(self.get_def(t), Some(TypeDef::Function(_, _)))
    }

    pub fn enum_type(&self, t: &Ty) -> (r: bool)
        ensures
            r == self.is_enum(*t),
    {
        matches!(self.get_def(t), Some(TypeDef::Enum(_)))
    }

    /// Everything but the type table is unchanged, and the type table only grew.
    pub open spec fn unchanged_except_types(self, old: Database) -> bool {
        &&& old.types@.len() <= self.types@.len()
        &&& forall|i: int| 0 <= i < old.types@.len() ==> self.types@[i] == old.types@[i]
        &&& self.scopes == old.scopes
        &&& self.packages == old.packages
        &&& self.node_mapping == old.node_mapping
        &&& self.node_invalidation_mapping == old.node_invalidation_mapping
        &&& self.config_constants == old.config_constants
        &&& self.config_constants_result == old.config_constants_result
        &&& self.diagnostics == old.diagnostics
    }

    /// Creates a scope of `kind` without a parent.
    pub fn create_scope(&mut self, kind: ScopeKind) -> (r: usize)
        ensures
            r == old(self).scopes@.len(),
            final(self).scopes@.len() == old(self).scopes@.len() + 1,
            forall|i: int| 0 <= i < old(self).scopes@.len() ==> #[trigger] final(self).scopes@[i] == old(self).scopes@[i],
            final(self).scopes@[r as int].kind == kind,
            final(self).scopes@[r as int].parent is None,
            final(self).scopes@[r as int].properties@.len() == 0,
            final(self).scopes@[r as int].imports@.len() == 0,
            final(self).types == old(self).types,
            final(self).packages == old(self).packages,
            final(self).node_mapping == old(self).node_mapping,
            final(self).node_invalidation_mapping == old(self).node_invalidation_mapping,
            final(self).diagnostics == old(self).diagnostics,
            final(self).config_constants == old(self).config_constants,
            final(self).config_constants_result == old(self).config_constants_result,
    {
        let r = self.scopes.len();
        self.scopes.push(Scope { kind, parent: None, properties: Vec::new(), imports: Vec::new() });
        r
    }

    /// Adds a property to the scope `scope`.
    pub fn add_scope_property(&mut self, scope: usize, p: Property)
        requires
            scope < old(self).scopes@.len(),
        ensures
            final(self).scopes@.len() == old(self).scopes@.len(),
            final(self).scopes@[scope as int].properties@ == old(self).scopes@[scope as int].properties@.push(p),
            final(self).scopes@[scope as int].kind == old(self).scopes@[scope as int].kind,
            final(self).scopes@[scope as int].parent == old(self).scopes@[scope as int].parent,
            final(self).scopes@[scope as int].imports == old(self).scopes@[scope as int].imports,
            forall|i: int| 0 <= i < old(self).scopes@.len() && i != scope ==> #[trigger] final(self).scopes@[i] == old(self).scopes@[i],
            final(self).types == old(self).types,
            final(self).packages == old(self).packages,
            final(self).node_mapping == old(self).node_mapping,
            final(self).node_invalidation_mapping == old(self).node_invalidation_mapping,
            final(self).diagnostics == old(self).diagnostics,
            final(self).config_constants == old(self).config_constants,
            final(self).config_constants_result == old(self).config_constants_result,
    {
        self.scopes[scope].properties.push(p);
    }

    /// Sets the static type of the variable at `index` of scope `scope`;
    /// a property that is not a variable is left as it is.
    pub fn set_variable_type(&mut self, scope: usize, index: usize, t: Ty)
        requires
            scope < old(self).scopes@.len(),
        ensures
            final(self).scopes@.len() == old(self).scopes@.len(),
            final(self).scopes@[scope as int].kind == old(self).scopes@[scope as int].kind,
            final(self).scopes@[scope as int].parent == old(self).scopes@[scope as int].parent,
            final(self).scopes@[scope as int].imports == old(self).scopes@[scope as int].imports,
            index < old(self).scopes@[scope as int].properties@.len() ==> final(self).scopes@[scope as int].properties@
                == old(self).scopes@[scope as int].properties@.update(index as int,
                    property_with_type(old(self).scopes@[scope as int].properties@[index as int], t)),
            index >= old(self).scopes@[scope as int].properties@.len() ==> final(self).scopes == old(self).scopes,
            forall|i: int| 0 <= i < old(self).scopes@.len() && i != scope ==> #[trigger] final(self).scopes@[i] == old(self).scopes@[i],
            final(self).types == old(self).types,
            final(self).packages == old(self).packages,
            final(self).node_mapping == old(self).node_mapping,
            final(self).node_invalidation_mapping == old(self).node_invalidation_mapping,
            final(self).diagnostics == old(self).diagnostics,
            final(self).config_constants == old(self).config_constants,
            final(self).config_constants_result == old(self).config_constants_result,
    {
        if index < self.scopes[scope].properties.len() {
            if let PropertyKind::Variable { read_only, write_only, constant, .. } = &self.scopes[scope].properties[index].kind {
                let k = PropertyKind::Variable {
                    static_type: t,
                    read_only: *read_only,
                    write_only: *write_only,
                    constant: match constant { Some(c) => Some(c.copy()), None => None },
                };
                self.scopes[scope].properties[index].kind = k;
            }
        }
    }

    /// Sets what the property at `index` of scope `scope` is.
    pub fn set_property_kind(&mut self, scope: usize, index: usize, kind: PropertyKind)
        requires
            scope < old(self).scopes@.len(),
            index < old(self).scopes@[scope as int].properties@.len(),
        ensures
            final(self).scopes@.len() == old(self).scopes@.len(),
            final(self).scopes@[scope as int].kind == old(self).scopes@[scope as int].kind,
            final(self).scopes@[scope as int].parent == old(self).scopes@[scope as int].parent,
            final(self).scopes@[scope as int].imports == old(self).scopes@[scope as int].imports,
            final(self).scopes@[scope as int].properties@ == old(self).scopes@[scope as int].properties@.update(index as int,
                Property { kind, ..old(self).scopes@[scope as int].properties@[index as int] }),
            forall|i: int| 0 <= i < old(self).scopes@.len() && i != scope ==> #[trigger] final(self).scopes@[i] == old(self).scopes@[i],
            final(self).types == old(self).types,
            final(self).packages == old(self).packages,
            final(self).node_mapping == old(self).node_mapping,
            final(self).node_invalidation_mapping == old(self).node_invalidation_mapping,
            final(self).diagnostics == old(self).diagnostics,
            final(self).config_constants == old(self).config_constants,
            final(self).config_constants_result == old(self).config_constants_result,
    {
        self.scopes[scope].properties[index].kind = kind;
    }

    /// Sets the compile-time constant value of the variable at `index` of
    /// scope `scope`; a property that is not a variable is left as it is.
    pub fn set_variable_constant(&mut self, scope: usize, index: usize, c: Option<ConstantValue>)
        requires
            scope < old(self).scopes@.len(),
        ensures
            final(self).scopes@.len() == old(self).scopes@.len(),
            final(self).scopes@[scope as int].kind == old(self).scopes@[scope as int].kind,
            final(self).scopes@[scope as int].parent == old(self).scopes@[scope as int].parent,
            final(self).scopes@[scope as int].imports == old(self).scopes@[scope as int].imports,
            index < old(self).scopes@[scope as int].properties@.len() ==> final(self).scopes@[scope as int].properties@
                == old(self).scopes@[scope as int].properties@.update(index as int,
                    property_with_constant(old(self).scopes@[scope as int].properties@[index as int], c)),
            index >= old(self).scopes@[scope as int].properties@.len() ==> final(self).scopes == old(self).scopes,
            forall|i: int| 0 <= i < old(self).scopes@.len() && i != scope ==> #[trigger] final(self).scopes@[i] == old(self).scopes@[i],
            final(self).types == old(self).types,
            final(self).packages == old(self).packages,
            final(self).node_mapping == old(self).node_mapping,
            final(self).node_invalidation_mapping == old(self).node_invalidation_mapping,
            final(self).diagnostics == old(self).diagnostics,
            final(self).config_constants == old(self).config_constants,
            final(self).config_constants_result == old(self).config_constants_result,
    {
        if index < self.scopes[scope].properties.len() {
            if let PropertyKind::Variable { static_type, read_only, write_only, .. } = &self.scopes[scope].properties[index].kind {
                let k = PropertyKind::Variable {
                    static_type: static_type.clone(),
                    read_only: *read_only,
                    write_only: *write_only,
                    constant: c,
                };
                self.scopes[scope].properties[index].kind = k;
            }
        }
    }

    /// Adds an import to the scope `scope`.
    pub fn add_import(&mut self, scope: usize, imp: Import)
        requires
            scope < old(self).scopes@.len(),
        ensures
            final(self).scopes@.len() == old(self).scopes@.len(),
            final(self).scopes@[scope as int].imports@ == old(self).scopes@[scope as int].imports@.push(imp),
            final(self).scopes@[scope as int].kind == old(self).scopes@[scope as int].kind,
            final(self).scopes@[scope as int].parent == old(self).scopes@[scope as int].parent,
            final(self).scopes@[scope as int].properties == old(self).scopes@[scope as int].properties,
            forall|i: int| 0 <= i < old(self).scopes@.len() && i != scope ==> #[trigger] final(self).scopes@[i] == old(self).scopes@[i],
            final(self).types == old(self).types,
            final(self).packages == old(self).packages,
            final(self).node_mapping == old(self).node_mapping,
            final(self).node_invalidation_mapping == old(self).node_invalidation_mapping,
            final(self).diagnostics == old(self).diagnostics,
    {
        self.scopes[scope].imports.push(imp);
    }

    /// Creates the scope of an XML filter operation over a value of `base_type`.
    pub fn create_filter_scope(&mut self, base_type: Ty) -> (r: usize)
        ensures
            r == old(self).scopes@.len(),
            final(self).scopes@.len() == old(self).scopes@.len() + 1,
            forall|i: int| 0 <= i < old(self).scopes@.len() ==> #[trigger] final(self).scopes@[i] == old(self).scopes@[i],
            final(self).scopes@[r as int].kind == (ScopeKind::Filter { base_type }),
            final(self).scopes@[r as int].parent is None,
            final(self).scopes@[r as int].properties@.len() == 0,
            final(self).scopes@[r as int].imports@.len() == 0,
            final(self).types == old(self).types,
            final(self).packages == old(self).packages,
            final(self).node_mapping == old(self).node_mapping,
            final(self).node_invalidation_mapping == old(self).node_invalidation_mapping,
            final(self).diagnostics == old(self).diagnostics,
            final(self).config_constants == old(self).config_constants,
            final(self).config_constants_result == old(self).config_constants_result,
    {
        let r = self.scopes.len();
        self.scopes.push(Scope { kind: ScopeKind::Filter { base_type }, parent: None, properties: Vec::new(), imports: Vec::new() });
        r
    }

    /// Creates a tuple type; each call makes a new type.
    pub fn create_tuple_type(&mut self, elements: Vec<Ty>) -> (r: Ty)
        ensures
            r == Ty::Def(old(self).types@.len() as usize),
            final(self).types@ == old(self).types@.push(TypeDef::Tuple(elements)),
            final(self).def_of(r) == Some(TypeDef::Tuple(elements)),
            final(self).unchanged_except_types(*old(self)),
    {
        let i = self.types.len();
        self.types.push(TypeDef::Tuple(elements));
        Ty::Def(i)
    }

    /// Creates a function type; each call makes a new type.
    pub fn create_function_type(&mut self, params: Vec<FunctionParam>, result: Ty) -> (r: Ty)
        ensures
            r == Ty::Def(old(self).types@.len() as usize),
            final(self).types@ == old(self).types@.push(TypeDef::Function(params, result)),
            final(self).def_of(r) == Some(TypeDef::Function(params, result)),
            final(self).unchanged_except_types(*old(self)),
    {
        let i = self.types.len();
        self.types.push(TypeDef::Function(params, result));
        Ty::Def(i)
    }
}

/// `p` with its static type set to `t`, if it is a variable.
pub open spec fn property_with_type(p: Property, t: Ty) -> Property {
    match p.kind {
        PropertyKind::Variable { read_only, write_only, constant, .. } =>
            Property { kind: PropertyKind::Variable { static_type: t, read_only, write_only, constant }, ..p },
        _ => p,
    }
}

/// `p` with its constant value set to `c`, if it is a variable.
pub open spec fn property_with_constant(p: Property, c: Option<ConstantValue>) -> Property {
    match p.kind {
        PropertyKind::Variable { static_type, read_only, write_only, .. } =>
            Property { kind: PropertyKind::Variable { static_type, read_only, write_only, constant: c }, ..p },
        _ => p,
    }
}

/// The static type of the variable at `index` of scope `scope`.
pub open spec fn spec_slot_type(db: Database, scope: usize, index: usize) -> Option<Ty> {
    if scope < db.scopes@.len() && index < db.scopes@[scope as int].properties@.len() {
        match db.scopes@[scope as int].properties@[index as int].kind {
            PropertyKind::Variable { static_type, .. } => Some(static_type),
            _ => None,
        }
    } else {
        None
    }
}

/// The constant value of the variable at `index` of scope `scope`.
pub open spec fn spec_slot_constant(db: Database, scope: usize, index: usize) -> Option<ConstantValue> {
    if scope < db.scopes@.len() && index < db.scopes@[scope as int].properties@.len() {
        match db.scopes@[scope as int].properties@[index as int].kind {
            PropertyKind::Variable { constant, .. } => constant,
            _ => None,
        }
    } else {
        None
    }
}

/// Removes a nullable or non-nullable modifier.
pub open spec fn spec_escape_of_nullable_or_non_nullable(t: Ty) -> Ty {
    match t {
        Ty::Nullable(b) => *b,
        Ty::NonNullable(b) => *b,
        _ => t,
    }
}

pub open spec fn spec_escape_of_non_nullable(t: Ty) -> Ty {
    match t {
        Ty::NonNullable(b) => *b,
        _ => t,
    }
}

pub open spec fn spec_escape_of_nullable(t: Ty) -> Ty {
    match t {
        Ty::Nullable(b) => *b,
        _ => t,
    }
}

/// Whether `null` is a value of `t`.
pub open spec fn spec_includes_null(t: Ty) -> bool {
    match t {
        Ty::Void | Ty::Boolean | Ty::Number | Ty::Float | Ty::Int | Ty::Uint
        | Ty::Invalidation | Ty::Unresolved | Ty::NonNullable(_) => false,
        _ => true,
    }
}

/// Whether `undefined` is a value of `t`.
pub open spec fn spec_includes_undefined(t: Ty) -> bool {
    t == Ty::Any || t == Ty::Void
}

pub fn escape_of_nullable_or_non_nullable(t: &Ty) -> (r: Ty)
    ensures
        r == spec_escape_of_nullable_or_non_nullable(*t),
{
    match t {
        Ty::Nullable(b) => (**b).clone(),
        Ty::NonNullable(b) => (**b).clone(),
        _ => t.clone(),
    }
}

pub fn escape_of_non_nullable(t: &Ty) -> (r: Ty)
    ensures
        r == spec_escape_of_non_nullable(*t),
{
    match t {
        Ty::NonNullable(b) => (**b).clone(),
        _ => t.clone(),
    }
}

pub fn escape_of_nullable(t: &Ty) -> (r: Ty)
    ensures
        r == spec_escape_of_nullable(*t),
{
    match t {
        Ty::Nullable(b) => (**b).clone(),
        _ => t.clone(),
    }
}

pub fn includes_null(t: &Ty) -> (r: bool)
    ensures
        r == spec_includes_null(*t),
{
    !matches!(t, Ty::Void | Ty::Boolean | Ty::Number | Ty::Float | Ty::Int | Ty::Uint
        | Ty::Invalidation | Ty::Unresolved | Ty::NonNullable(_))
}

pub fn includes_undefined(t: &Ty) -> (r: bool)
    ensures
        r == spec_includes_undefined(*t),
{
    matches!(t, Ty::Any | Ty::Void)
}

/// The element type of `Array.<T>`.
pub open spec fn spec_array_element_type(t: Ty) -> Option<Ty> {
    match t {
        Ty::ArrayOf(e) => Some(*e),
        _ => None,
    }
}

/// The element type of `Vector.<T>`.
pub open spec fn spec_vector_element_type(t: Ty) -> Option<Ty> {
    match t {
        Ty::VectorOf(e) => Some(*e),
        _ => None,
    }
}

/// The result type of `Promise.<T>`.
pub open spec fn spec_promise_result_type(t: Ty) -> Option<Ty> {
    match t {
        Ty::PromiseOf(e) => Some(*e),
        _ => None,
    }
}

pub fn array_element_type(t: &Ty) -> (r: Option<Ty>)
    ensures
        r == spec_array_element_type(*t),
{
    match t {
        Ty::ArrayOf(e) => Some((**e).clone()),
        _ => None,
    }
}

pub fn vector_element_type(t: &Ty) -> (r: Option<Ty>)
    ensures
        r == spec_vector_element_type(*t),
{
    match t {
        Ty::VectorOf(e) => Some((**e).clone()),
        _ => None,
    }
}

pub fn promise_result_type(t: &Ty) -> (r: Option<Ty>)
    ensures
        r == spec_promise_result_type(*t),
{
    match t {
        Ty::PromiseOf(e) => Some((**e).clone()),
        _ => None,
    }
}

/// `Array.<*>`
pub open spec fn spec_array_of_any() -> Ty {
    Ty::ArrayOf(Box::new(Ty::Any))
}

pub fn array_type_of_any() -> (r: Ty)
    ensures
        r == spec_array_of_any(),
{
    Ty::ArrayOf(Box::new(Ty::Any))
}

/// `Promise.<*>`
pub fn promise_type_of_any() -> (r: Ty)
    ensures
        r == Ty::PromiseOf(Box::new(Ty::Any)),
{
    Ty::PromiseOf(Box::new(Ty::Any))
}

} // verus!
