//! Diagnostics that the verifier reports.
use vstd::prelude::*;
use crate::ast::Location;

verus! {

/// The kinds of diagnostics.
#[derive(Clone, Copy, PartialEq, Eq, Structural, Debug)]
pub enum DiagnosticKind {
    AConflictExistsWithDefinition,
    ASuperExpCanBeUsedOnlyIn,
    ASuperExpCanOnlyBeUsedInSubclasses,
    AccessControlNamespaceNotAllowedHere,
    AccessOfNullable,
    AccessOfVoid,
    AmbiguousReference,
    ArrayLengthNotEqualsTupleLength,
    AwaitOperandMustBeAPromise,
    CallOnArrayType,
    CallOnDateType,
    CallOnNonFunction,
    CannotResolveConfigConstant,
    CannotUseDestructuringHere,
    ComparisonBetweenUnrelatedTypes,
    ConcatenatingSelfReferentialPackage,
    ConstructorMustContainSuperStatement,
    ConstantMustContainInitializer,
    CouldNotExpandInlineConstant,
    CouldNotParseNumber,
    DuplicateClassDefinition,
    DuplicateFunctionDefinition,
    DuplicateInterfaceDefinition,
    DynamicOptionNotSupported,
    EmptyPackage,
    EntityIsNotAConstant,
    EntityIsNotAType,
    EntityIsReadOnly,
    EntityIsWriteOnly,
    EntityMustNotBeDeleted,
    ExternalFunctionMustBeNativeOrAbstract,
    GetterMustReturnDataType,
    GetterMustTakeNoParameters,
    ImplicitCoercionToUnrelatedType,
    IncompatibleOverride,
    ImportOfUndefined,
    InapplicableDescendants,
    InapplicableFilter,
    MustOverrideAMethod,
    MustSpecifyOption,
    NanComparison,
    NoMatchingEnumMember,
    NonParameterizedType,
    NotABooleanConstant,
    NotANamespaceConstant,
    NullNotExpectedHere,
    OperandMustBeNumber,
    OverridingFinalMethod,
    ReachedMaximumCycles,
    RedefiningConstructor,
    ReferenceIsAlreadyNonNullable,
    RestParameterMustBeArray,
    ReturnTypeDeclarationMustBePromise,
    ReturnTypeInferenceIsNotImplemented,
    ReturnValueHasNoTypeDeclaration,
    SetterMustReturnVoid,
    SetterMustTakeDataType,
    SetterMustTakeOneParameter,
    ShadowingDefinitionInBaseClass,
    SystemNamespaceNotFound,
    UndefinedProperty,
    UndefinedPropertyWithStaticType,
    UnexpectedArray,
    UnexpectedElision,
    UnexpectedFieldName,
    UnexpectedFieldNameInDestructuring,
    UnexpectedNewBase,
    UnexpectedObject,
    UnexpectedRest,
    UnexpectedThis,
    UnknownOptionForClass,
    UnrelatedMathOperation,
    UnrelatedTernaryOperands,
    VariableHasNoTypeAnnotation,
    YieldIsNotSupported,
    /// Expected this many arguments.
    IncorrectNumArguments(usize),
    /// Expected no more than this many arguments.
    IncorrectNumArgumentsNoMoreThan(usize),
}

/// A diagnostic: an error (a syntax or a verify error) or a warning.
#[derive(Clone, Copy, PartialEq, Eq, Structural, Debug)]
pub struct Diagnostic {
    pub location: Location,
    pub kind: DiagnosticKind,
    pub is_warning: bool,
    pub is_syntax_error: bool,
}

} // verus!
