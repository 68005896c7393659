//! Property lookup in scope chains and objects, and implicit conversion.
use vstd::prelude::*;
use crate::diagnostics::DiagnosticKind;
use crate::semantics::{Ty, TypeDef, def_of, Entity, Property, PropertyKind, ReferenceBase, ScopeKind, Import,
    Database, NumberValue, ConversionKind, is_numeric, numeric, clone_property_kind,
    spec_escape_of_non_nullable, spec_escape_of_nullable, spec_escape_of_nullable_or_non_nullable,
    spec_includes_null, spec_includes_undefined, spec_array_element_type, spec_vector_element_type,
    escape_of_non_nullable, escape_of_nullable, escape_of_nullable_or_non_nullable, includes_null,
    includes_undefined, array_element_type, vector_element_type};

verus! {

/// The key of a property lookup.
pub enum PropertyLookupKey {
    LocalName(String),
    Computed(Entity),
}

/// Why a property lookup failed.
pub enum PropertyLookupError {
    AmbiguousReference(String),
    Defer,
    VoidBase,
    NullableObject,
}

/// The entity that a reference to property `p` resolves to.
pub open spec fn spec_property_reference(base: ReferenceBase, p: Property) -> Entity {
    match p.kind {
        PropertyKind::Type { ty } => Entity::TypeReference { ty },
        PropertyKind::Namespace { kind } => Entity::NamespaceConstant { kind },
        _ => Entity::PropertyReference { base, name: p.name, property: Box::new(p.kind) },
    }
}

pub fn property_reference(base: ReferenceBase, p: &Property) -> (r: Entity)
    ensures
        r == spec_property_reference(base, *p),
{
    match &p.kind {
        PropertyKind::Type { ty } => Entity::TypeReference { ty: ty.clone() },
        PropertyKind::Namespace { kind } => Entity::NamespaceConstant { kind: *kind },
        _ => Entity::PropertyReference { base, name: p.name.clone(), property: Box::new(clone_property_kind(&p.kind)) },
    }
}

/// `i` is the first index of `props` whose name is `name`.
pub open spec fn first_named(props: Seq<Property>, name: Seq<char>, i: int) -> bool {
    &&& 0 <= i < props.len()
    &&& props[i].name@ == name
    &&& forall|j: int| 0 <= j < i ==> (#[trigger] props[j]).name@ != name
}

/// The first index of `props` whose name is `name`.
pub open spec fn spec_find_property(props: Seq<Property>, name: Seq<char>) -> Option<int> {
    if exists|i: int| first_named(props, name, i) {
        Some(choose|i: int| first_named(props, name, i))
    } else {
        None
    }
}

/// The property found by name is named so.
pub proof fn lemma_found_property_named(props: Seq<Property>, name: Seq<char>)
    ensures
        spec_find_property(props, name) matches Some(i) ==> first_named(props, name, i),
{
    if exists|i: int| first_named(props, name, i) {
        let i = choose|i: int| first_named(props, name, i);
        assert(first_named(props, name, i));
    }
}

/// Finds the first property named `name`.
pub fn find_property(props: &Vec<Property>, name: &String) -> (r: Option<usize>)
    ensures
        match r {
            Some(i) => spec_find_property(props@, name@) == Some(i as int),
            None => spec_find_property(props@, name@) is None,
        },
{
    let mut i: usize = 0;
    while i < props.len()
        invariant
            i <= props@.len(),
            forall|j: int| 0 <= j < i ==> (#[trigger] props@[j]).name@ != name@,
        decreases props@.len() - i,
    {
        if props[i].name == *name {
            proof {
                assert(first_named(props@, name@, i as int));
                let k = choose|k: int| first_named(props@, name@, k);
                assert(k == i) by {
                    if k < i {
                        assert(props@[k].name@ != name@);
                    }
                    if k > i {
                        assert(props@[i as int].name@ != name@);
                    }
                }
            }
            return Some(i);
        }
        i = i + 1;
    }
    proof {
        assert forall|k: int| !first_named(props@, name@, k) by {
            if 0 <= k < props@.len() {
                assert(props@[k].name@ != name@);
            }
        }
    }
    None
}

/// The property of package `package` that import `imp` brings for `name`, as
/// (package, index).
pub open spec fn spec_import_result(db: Database, imp: Import, name: Seq<char>) -> Option<(usize, int)> {
    let package = match imp {
        Import::PackageWildcard { package } => package,
        Import::PackageRecursive { package } => package,
        Import::PackageProperty { package, .. } => package,
    };
    let applies = match imp {
        Import::PackageProperty { name: n, .. } => n@ == name,
        _ => true,
    };
    if applies && package < db.packages@.len() {
        match spec_find_property(db.packages@[package as int].properties@, name) {
            Some(i) => Some((package, i)),
            None => None,
        }
    } else {
        None
    }
}

/// The outcome of looking a name up in a list of imports.
pub enum ImportLookup {
    NotFound,
    Found(usize, usize),
    Ambiguous,
}

/// Looks `name` up in the imports: two imports that bring different
/// properties make the reference ambiguous.
pub open spec fn spec_imports_lookup(db: Database, imps: Seq<Import>, name: Seq<char>) -> ImportLookup
    decreases imps.len(),
{
    if imps.len() == 0 {
        ImportLookup::NotFound
    } else {
        let prev = spec_imports_lookup(db, imps.drop_last(), name);
        match spec_import_result(db, imps.last(), name) {
            None => prev,
            Some((p, i)) => match prev {
                ImportLookup::NotFound => ImportLookup::Found(p, i as usize),
                ImportLookup::Found(q, j) => if q == p && j == i { prev } else { ImportLookup::Ambiguous },
                ImportLookup::Ambiguous => ImportLookup::Ambiguous,
            },
        }
    }
}

/// The result of looking `name` up in scope `s` itself, if the scope
/// decides it (`None` when the lookup goes on to the parent).
pub open spec fn spec_lookup_in_scope(db: Database, s: usize, name: Seq<char>) -> Option<Result<Entity, ()>> {
    let scope = db.scopes@[s as int];
    if scope.kind is Filter {
        Some(Ok(Entity::DynamicReference { ty: Ty::Any }))
    } else if let Some(i) = spec_find_property(scope.properties@, name) {
        Some(Ok(spec_property_reference(ReferenceBase::Scope { scope: s, index: i as usize }, scope.properties@[i])))
    } else if let Some(i) = (match scope.kind {
        ScopeKind::Package { package } => if package < db.packages@.len() {
            spec_find_property(db.packages@[package as int].properties@, name)
        } else {
            None
        },
        _ => None,
    }) {
        let package = scope.kind->package;
        Some(Ok(spec_property_reference(ReferenceBase::Fixture, db.packages@[package as int].properties@[i])))
    } else {
        match spec_imports_lookup(db, scope.imports@, name) {
            ImportLookup::NotFound => None,
            ImportLookup::Found(p, i) => Some(Ok(spec_property_reference(ReferenceBase::Fixture, db.packages@[p as int].properties@[i as int]))),
            ImportLookup::Ambiguous => Some(Err(())),
        }
    }
}

/// Looks `name` up in the chain of `scope`, walking at most `fuel` scopes:
/// `Err(())` for an ambiguous reference.
pub open spec fn spec_lookup_chain(db: Database, scope: Option<usize>, name: Seq<char>, fuel: nat) -> Result<Option<Entity>, ()>
    decreases fuel,
{
    if fuel == 0 {
        Ok(None)
    } else {
        match scope {
            None => Ok(None),
            Some(s) => if s >= db.scopes@.len() {
                Ok(None)
            } else {
                match spec_lookup_in_scope(db, s, name) {
                    Some(Ok(e)) => Ok(Some(e)),
                    Some(Err(())) => Err(()),
                    None => spec_lookup_chain(db, db.scopes@[s as int].parent, name, (fuel - 1) as nat),
                }
            },
        }
    }
}

/// Result of looking up `key` in the scope chain of `scope`.
pub open spec fn spec_lookup_in_scope_chain(db: Database, scope: Option<usize>, key: PropertyLookupKey) -> Result<Option<Entity>, PropertyLookupError> {
    match key {
        PropertyLookupKey::Computed(_) => Ok(Some(Entity::DynamicReference { ty: Ty::Any })),
        PropertyLookupKey::LocalName(name) => match spec_lookup_chain(db, scope, name@, db.scopes@.len()) {
            Ok(r) => Ok(r),
            Err(()) => Err(PropertyLookupError::AmbiguousReference(name)),
        },
    }
}

impl Database {
    fn import_result(&self, imp: &Import, name: &String) -> (r: Option<(usize, usize)>)
        ensures
            match r {
                Some((p, i)) => spec_import_result(*self, *imp, name@) == Some((p, i as int)),
                None => spec_import_result(*self, *imp, name@) is None,
            },
    {
        let (package, applies) = match imp {
            Import::PackageWildcard { package } => (*package, true),
            Import::PackageRecursive { package } => (*package, true),
            Import::PackageProperty { package, name: n } => (*package, *n == *name),
        };
        if applies && package < self.packages.len() {
            match find_property(&self.packages[package].properties, name) {
                Some(i) => Some((package, i)),
                None => None,
            }
        } else {
            None
        }
    }

    fn imports_lookup(&self, imps: &Vec<Import>, name: &String) -> (r: ImportLookup)
        ensures
            r == spec_imports_lookup(*self, imps@, name@),
    {
        let mut acc = ImportLookup::NotFound;
        let mut k: usize = 0;
        while k < imps.len()
            invariant
                k <= imps@.len(),
                acc == spec_imports_lookup(*self, imps@.subrange(0, k as int), name@),
            decreases imps@.len() - k,
        {
            proof {
                assert(imps@.subrange(0, k + 1).drop_last() =~= imps@.subrange(0, k as int));
                assert(imps@.subrange(0, k + 1).last() == imps@[k as int]);
            }
            match self.import_result(&imps[k], name) {
                None => {},
                Some((p, i)) => {
                    acc = match acc {
                        ImportLookup::NotFound => ImportLookup::Found(p, i),
                        ImportLookup::Found(q, j) => if q == p && j == i { ImportLookup::Found(q, j) } else { ImportLookup::Ambiguous },
                        ImportLookup::Ambiguous => ImportLookup::Ambiguous,
                    };
                },
            }
            k = k + 1;
        }
        proof {
            assert(imps@.subrange(0, imps@.len() as int) =~= imps@);
        }
        acc
    }

    fn lookup_in_scope(&self, s: usize, name: &String) -> (r: Option<Result<Entity, ()>>)
        requires
            s < self.scopes@.len(),
        ensures
            r == spec_lookup_in_scope(*self, s, name@),
    {
        let scope = &self.scopes[s];
        if matches!(scope.kind, ScopeKind::Filter { .. }) {
            return Some(Ok(Entity::DynamicReference { ty: Ty::Any }));
        }
        if let Some(i) = find_property(&scope.properties, name) {
            return Some(Ok(property_reference(ReferenceBase::Scope { scope: s, index: i }, &scope.properties[i])));
        }
        if let ScopeKind::Package { package } = scope.kind {
            if package < self.packages.len() {
                if let Some(i) = find_property(&self.packages[package].properties, name) {
                    return Some(Ok(property_reference(ReferenceBase::Fixture, &self.packages[package].properties[i])));
                }
            }
        }
        match self.imports_lookup(&scope.imports, name) {
            ImportLookup::NotFound => None,
            ImportLookup::Found(p, i) => {
                proof {
                    lemma_imports_lookup_found(*self, scope.imports@, name@);
                }
                Some(Ok(property_reference(ReferenceBase::Fixture, &self.packages[p].properties[i])))
            },
            ImportLookup::Ambiguous => Some(Err(())),
        }
    }

    /// Looks `key` up in the chain of `scope`.
    pub fn lookup_in_scope_chain(&self, scope: Option<usize>, key: &PropertyLookupKey) -> (r: Result<Option<Entity>, PropertyLookupError>)
        ensures
            r == spec_lookup_in_scope_chain(*self, scope, *key),
    {
        let name = match key {
            PropertyLookupKey::Computed(_) => return Ok(Some(Entity::DynamicReference { ty: Ty::Any })),
            PropertyLookupKey::LocalName(name) => name,
        };
        let mut cur = scope;
        let mut fuel: usize = self.scopes.len();
        while fuel > 0
            invariant
                fuel <= self.scopes@.len(),
                *key == PropertyLookupKey::LocalName(*name),
                spec_lookup_chain(*self, scope, name@, self.scopes@.len()) == spec_lookup_chain(*self, cur, name@, fuel as nat),
            decreases fuel,
        {
            match cur {
                None => return Ok(None),
                Some(s) => {
                    if s >= self.scopes.len() {
                        return Ok(None);
                    }
                    match self.lookup_in_scope(s, name) {
                        Some(Ok(e)) => return Ok(Some(e)),
                        Some(Err(())) => return Err(PropertyLookupError::AmbiguousReference(name.clone())),
                        None => {},
                    }
                    cur = self.scopes[s].parent;
                },
            }
            fuel = fuel - 1;
        }
        Ok(None)
    }
}

/// What an import lookup finds is a property of a package of the database.
pub proof fn lemma_imports_lookup_found(db: Database, imps: Seq<Import>, name: Seq<char>)
    ensures
        spec_imports_lookup(db, imps, name) matches ImportLookup::Found(p, i) ==> p < db.packages@.len()
            && i < db.packages@[p as int].properties@.len(),
    decreases imps.len(),
{
    if imps.len() > 0 {
        lemma_imports_lookup_found(db, imps.drop_last(), name);
        let imp = imps.last();
        let package = match imp {
            Import::PackageWildcard { package } => package,
            Import::PackageRecursive { package } => package,
            Import::PackageProperty { package, .. } => package,
        };
        if package < db.packages@.len() {
            let props = db.packages@[package as int].properties@;
            if exists|i: int| first_named(props, name, i) {
                let i = choose|i: int| first_named(props, name, i);
                assert(first_named(props, name, i));
            }
        }
    }
}

/// The instance property named `name` of type `t`, searching the classes it
/// extends, at most `fuel` of them.
pub open spec fn spec_instance_property(types: Seq<TypeDef>, t: Ty, name: Seq<char>, fuel: nat) -> Option<Property>
    decreases fuel,
{
    if fuel == 0 {
        None
    } else {
        match def_of(types, t) {
            Some(TypeDef::Class(c)) => match spec_find_property(c.prototype@, name) {
                Some(i) => Some(c.prototype@[i]),
                None => match c.extends {
                    Some(p) => spec_instance_property(types, p, name, (fuel - 1) as nat),
                    None => None,
                },
            },
            Some(TypeDef::Interface(d)) => match spec_find_property(d.prototype@, name) {
                Some(i) => Some(d.prototype@[i]),
                None => None,
            },
            _ => None,
        }
    }
}

/// How many classes a lookup or an inheritance test walks at most.
pub const MAX_INHERITANCE_DEPTH: usize = 256;

/// Whether `names` holds a name equal to `name`.
pub open spec fn names_contain(names: Seq<String>, name: Seq<char>) -> bool {
    exists|i: int| 0 <= i < names.len() && (#[trigger] names[i])@ == name
}

/// The error that a failed lookup reports: `undefined` for a name that is
/// not found, and the access of `void`, of a nullable object or of an
/// ambiguous name; `None` for a lookup that succeeds or defers.
pub open spec fn spec_lookup_error(r: Result<Option<Entity>, PropertyLookupError>, undefined: DiagnosticKind) -> Option<DiagnosticKind> {
    match r {
        Ok(None) => Some(undefined),
        Err(PropertyLookupError::VoidBase) => Some(DiagnosticKind::AccessOfVoid),
        Err(PropertyLookupError::NullableObject) => Some(DiagnosticKind::AccessOfNullable),
        Err(PropertyLookupError::AmbiguousReference(_)) => Some(DiagnosticKind::AmbiguousReference),
        _ => None,
    }
}

/// A reference to the member `name` of the enumeration `e`: a read-only
/// static variable of type `e`.
pub open spec fn spec_enum_member(e: Ty, name: String) -> Entity {
    Entity::PropertyReference {
        base: ReferenceBase::Fixture,
        name,
        property: Box::new(PropertyKind::Variable { static_type: e, read_only: true, write_only: false, constant: None }),
    }
}

/// A reference to the member `name` of the enumeration `e`.
pub fn enum_member(e: &Ty, name: &String) -> (r: Entity)
    ensures
        r == spec_enum_member(*e, *name),
{
    Entity::PropertyReference {
        base: ReferenceBase::Fixture,
        name: name.clone(),
        property: Box::new(PropertyKind::Variable { static_type: e.clone(), read_only: true, write_only: false, constant: None }),
    }
}

/// What a static member `name` of the type `t` resolves to: a static
/// property of a class, or a member of an enumeration.
pub open spec fn spec_static_lookup(types: Seq<TypeDef>, t: Ty, name: String) -> Option<Entity> {
    match def_of(types, t) {
        Some(TypeDef::Class(c)) => match spec_find_property(c.static_properties@, name@) {
            Some(i) => Some(spec_property_reference(ReferenceBase::Fixture, c.static_properties@[i])),
            None => None,
        },
        Some(TypeDef::Enum(e)) => if names_contain(e.members@, name@) { Some(spec_enum_member(t, name)) } else { None },
        _ => None,
    }
}

/// The type of what a computed key gives of a value of type `e`.
pub open spec fn spec_computed_member_type(e: Ty) -> Ty {
    match spec_array_element_type(e) {
        Some(x) => x,
        None => match spec_vector_element_type(e) {
            Some(x) => x,
            None => Ty::Any,
        },
    }
}

/// Whether looking a key up in `base` defers: `base` is a value whose type
/// is not resolved yet.
pub open spec fn spec_lookup_defers(base: Entity) -> bool {
    base.spec_as_type() is None && base.spec_static_type() == Ty::Unresolved
}

/// Whether looking a key up in the verified result `r` may defer.
pub open spec fn spec_result_defers(r: Option<Entity>) -> bool {
    match r {
        Some(b) => spec_lookup_defers(b),
        None => false,
    }
}

/// Result of looking `key` up in the object `base`.
pub open spec fn spec_lookup_in_object(types: Seq<TypeDef>, base: Entity, key: PropertyLookupKey) -> Result<Option<Entity>, PropertyLookupError> {
    match base.spec_as_type() {
        Some(t) => match key {
            PropertyLookupKey::Computed(_) => Ok(Some(Entity::DynamicReference { ty: Ty::Any })),
            PropertyLookupKey::LocalName(n) => Ok(spec_static_lookup(types, t, n)),
        },
        None => {
            let st = base.spec_static_type();
            if st == Ty::Unresolved {
                Err(PropertyLookupError::Defer)
            } else if st == Ty::Void {
                Err(PropertyLookupError::VoidBase)
            } else if st is Nullable {
                Err(PropertyLookupError::NullableObject)
            } else {
                let e = spec_escape_of_non_nullable(st);
                match key {
                    PropertyLookupKey::Computed(_) => Ok(Some(Entity::DynamicReference { ty: spec_computed_member_type(e) })),
                    PropertyLookupKey::LocalName(n) => if e == Ty::Any || e == Ty::Object || e == Ty::Xml || e == Ty::XmlList {
                        Ok(Some(Entity::DynamicReference { ty: Ty::Any }))
                    } else {
                        match spec_instance_property(types, e, n@, MAX_INHERITANCE_DEPTH as nat) {
                            Some(p) => Ok(Some(spec_property_reference(ReferenceBase::Fixture, p))),
                            None => Ok(None),
                        }
                    },
                }
            }
        },
    }
}

/// Whether the class `s` extends `t`, directly or through at most `fuel` classes.
pub open spec fn spec_extends(types: Seq<TypeDef>, s: Ty, t: Ty, fuel: nat) -> bool
    decreases fuel,
{
    if fuel == 0 {
        false
    } else {
        match def_of(types, s) {
            Some(TypeDef::Class(c)) => match c.extends {
                Some(p) => p == t || spec_extends(types, p, t, (fuel - 1) as nat),
                None => false,
            },
            _ => false,
        }
    }
}

/// Whether the class `s` is a subclass of `t`.
pub open spec fn spec_subclass(types: Seq<TypeDef>, s: Ty, t: Ty) -> bool {
    spec_extends(types, s, t, MAX_INHERITANCE_DEPTH as nat)
}

/// The value of a numeric constant converted to the numeric type `t`, when
/// the conversion keeps it a constant.
pub open spec fn spec_convert_number(v: NumberValue, t: Ty) -> Option<NumberValue> {
    if t == Ty::Number {
        Some(match v {
            NumberValue::Int(x) => NumberValue::Integer(x as i64),
            NumberValue::Uint(x) => NumberValue::Integer(x as i64),
            _ => v,
        })
    } else if t == Ty::Float {
        Some(if v == NumberValue::NaN { NumberValue::NaN } else { NumberValue::Real })
    } else if t == Ty::Int {
        match v {
            NumberValue::Int(x) => Some(NumberValue::Int(x)),
            NumberValue::Uint(x) => Some(NumberValue::Int(x as i32)),
            _ => None,
        }
    } else if t == Ty::Uint {
        match v {
            NumberValue::Int(x) => Some(NumberValue::Uint(x as u32)),
            NumberValue::Uint(x) => Some(NumberValue::Uint(x)),
            _ => None,
        }
    } else {
        None
    }
}

/// Implicit conversion of the value `v` to the type `t`, if there is one.
/// A compile-time constant converted to `*` or `Object` stays a constant.
pub open spec fn spec_implicit(types: Seq<TypeDef>, v: Entity, t: Ty) -> Option<Entity> {
    let s = v.spec_static_type();
    if s == t {
        Some(v)
    } else if v is Invalidation || s == Ty::Invalidation || t == Ty::Invalidation {
        None
    } else if (t == Ty::Any || t == Ty::Object) && v.spec_constant_value() is Some && !(v is UndefinedConstant && t == Ty::Object) {
        Some(v.spec_constant_value().unwrap().spec_to_entity(t))
    } else if t == Ty::Any || (t == Ty::Object && s != Ty::Void) || s == Ty::Any {
        Some(Entity::Conversion { ty: t, from: s, kind: ConversionKind::Widening })
    } else if v is NumberConstant && is_numeric(t) && spec_convert_number(v->NumberConstant_value, t) is Some {
        Some(Entity::NumberConstant { value: spec_convert_number(v->NumberConstant_value, t).unwrap(), ty: t })
    } else if v is NullConstant && spec_includes_null(t) {
        Some(Entity::NullConstant { ty: t })
    } else if v is UndefinedConstant && spec_includes_undefined(t) {
        Some(Entity::UndefinedConstant { ty: t })
    } else if t == Ty::Nullable(Box::new(s)) {
        Some(Entity::Conversion { ty: t, from: s, kind: ConversionKind::AsIsToNullable })
    } else if s is NonNullable && t == Ty::Nullable(Box::new(spec_escape_of_non_nullable(s))) {
        Some(Entity::Conversion { ty: t, from: s, kind: ConversionKind::NonNullableToNullable })
    } else if s == Ty::NonNullable(Box::new(t)) {
        Some(Entity::Conversion { ty: t, from: s, kind: ConversionKind::Widening })
    } else if is_numeric(s) && is_numeric(t) {
        Some(Entity::Conversion { ty: t, from: s, kind: ConversionKind::Widening })
    } else if spec_subclass(types, spec_escape_of_non_nullable(s), spec_escape_of_nullable(t)) {
        Some(Entity::Conversion { ty: t, from: s, kind: ConversionKind::Widening })
    } else {
        None
    }
}

/// Whether a comparison between values of these types is between unrelated types.
pub open spec fn spec_unrelated_types(types: Seq<TypeDef>, left: Ty, right: Ty) -> bool {
    let a = spec_escape_of_nullable_or_non_nullable(left);
    let b = spec_escape_of_nullable_or_non_nullable(right);
    &&& a != b
    &&& a != Ty::Any && a != Ty::Object && b != Ty::Any && b != Ty::Object
    &&& !(is_numeric(a) && is_numeric(b))
    &&& !spec_subclass(types, a, b)
    &&& !spec_subclass(types, b, a)
}

/// Whether `names` holds `name`.
pub fn contains_name(names: &Vec<String>, name: &String) -> (r: bool)
    ensures
        r == names_contain(names@, name@),
{
    let mut i: usize = 0;
    while i < names.len()
        invariant
            i <= names@.len(),
            forall|j: int| 0 <= j < i ==> (#[trigger] names@[j])@ != name@,
        decreases names@.len() - i,
    {
        if names[i] == *name {
            return true;
        }
        i = i + 1;
    }
    false
}

impl Database {
    /// The instance property named `name` of type `t` or of a class it extends.
    pub fn instance_property(&self, t: &Ty, name: &String) -> (r: Option<&Property>)
        ensures
            match r {
                Some(p) => spec_instance_property(self.types@, *t, name@, MAX_INHERITANCE_DEPTH as nat) == Some(*p),
                None => spec_instance_property(self.types@, *t, name@, MAX_INHERITANCE_DEPTH as nat) is None,
            },
    {
        let mut cur = t.clone();
        let mut fuel: usize = MAX_INHERITANCE_DEPTH;
        while fuel > 0
            invariant
                fuel <= MAX_INHERITANCE_DEPTH,
                spec_instance_property(self.types@, *t, name@, MAX_INHERITANCE_DEPTH as nat) == spec_instance_property(self.types@, cur, name@, fuel as nat),
            decreases fuel,
        {
            match self.get_def(&cur) {
                Some(TypeDef::Class(c)) => {
                    match find_property(&c.prototype, name) {
                        Some(i) => return Some(&c.prototype[i]),
                        None => match &c.extends {
                            Some(p) => { cur = p.clone(); },
                            None => return None,
                        },
                    }
                },
                Some(TypeDef::Interface(d)) => {
                    return match find_property(&d.prototype, name) {
                        Some(i) => Some(&d.prototype[i]),
                        None => None,
                    };
                },
                _ => return None,
            }
            fuel = fuel - 1;
        }
        None
    }

    /// The static property named `name` of the type `t`.
    pub fn static_lookup(&self, t: &Ty, name: &String) -> (r: Option<Entity>)
        ensures
            r == spec_static_lookup(self.types@, *t, *name),
    {
        match self.get_def(t) {
            Some(TypeDef::Class(c)) => match find_property(&c.static_properties, name) {
                Some(i) => Some(property_reference(ReferenceBase::Fixture, &c.static_properties[i])),
                None => None,
            },
            Some(TypeDef::Enum(e)) => if contains_name(&e.members, name) { Some(enum_member(t, name)) } else { None },
            _ => None,
        }
    }

    /// Looks `key` up in the object `base`.
    pub fn lookup_in_object(&self, base: &Entity, key: &PropertyLookupKey) -> (r: Result<Option<Entity>, PropertyLookupError>)
        ensures
            r == spec_lookup_in_object(self.types@, *base, *key),
    {
        match base.as_type() {
            Some(t) => match key {
                PropertyLookupKey::Computed(_) => Ok(Some(Entity::DynamicReference { ty: Ty::Any })),
                PropertyLookupKey::LocalName(n) => Ok(self.static_lookup(&t, n)),
            },
            None => {
                let st = base.static_type();
                if st.is(Ty::Unresolved) {
                    return Err(PropertyLookupError::Defer);
                }
                if st.is(Ty::Void) {
                    return Err(PropertyLookupError::VoidBase);
                }
                if let Ty::Nullable(_) = st {
                    return Err(PropertyLookupError::NullableObject);
                }
                let e = escape_of_non_nullable(&st);
                match key {
                    PropertyLookupKey::Computed(_) => {
                        let ty = match array_element_type(&e) {
                            Some(x) => x,
                            None => match vector_element_type(&e) {
                                Some(x) => x,
                                None => Ty::Any,
                            },
                        };
                        Ok(Some(Entity::DynamicReference { ty }))
                    },
                    PropertyLookupKey::LocalName(n) => {
                        if matches!(e, Ty::Any | Ty::Object | Ty::Xml | Ty::XmlList) {
                            Ok(Some(Entity::DynamicReference { ty: Ty::Any }))
                        } else {
                            match self.instance_property(&e, n) {
                                Some(p) => Ok(Some(property_reference(ReferenceBase::Fixture, p))),
                                None => Ok(None),
                            }
                        }
                    },
                }
            },
        }
    }

    /// Whether the class `s` is a subclass of `t`.
    pub fn subclass(&self, s: &Ty, t: &Ty) -> (r: bool)
        ensures
            r == spec_subclass(self.types@, *s, *t),
    {
        let mut cur = s.clone();
        let mut fuel: usize = MAX_INHERITANCE_DEPTH;
        while fuel > 0
            invariant
                fuel <= MAX_INHERITANCE_DEPTH,
                spec_subclass(self.types@, *s, *t) == spec_extends(self.types@, cur, *t, fuel as nat),
            decreases fuel,
        {
            match self.get_def(&cur) {
                Some(TypeDef::Class(c)) => match &c.extends {
                    Some(p) => {
                        if p.same(t) {
                            return true;
                        }
                        cur = p.clone();
                    },
                    None => return false,
                },
                _ => return false,
            }
            fuel = fuel - 1;
        }
        false
    }

    /// Implicitly converts the value `v` to the type `t`.
    pub fn implicit(&self, v: &Entity, t: &Ty) -> (r: Option<Entity>)
        ensures
            r == spec_implicit(self.types@, *v, *t),
    {
        let s = v.static_type();
        if s.same(t) {
            return Some(v.clone());
        }
        if v.is_invalidation() || s.is(Ty::Invalidation) || t.is(Ty::Invalidation) {
            return None;
        }
        if t.is(Ty::Any) || t.is(Ty::Object) {
            if let Some(c) = v.constant_value() {
                if !(matches!(v, Entity::UndefinedConstant { .. }) && t.is(Ty::Object)) {
                    return Some(c.to_entity(t.clone()));
                }
            }
        }
        if t.is(Ty::Any) || (t.is(Ty::Object) && !s.is(Ty::Void)) || s.is(Ty::Any) {
            return Some(Entity::Conversion { ty: t.clone(), from: s, kind: ConversionKind::Widening });
        }
        if let Entity::NumberConstant { value, .. } = v {
            if numeric(t) {
                if let Some(c) = convert_number(*value, t) {
                    return Some(Entity::NumberConstant { value: c, ty: t.clone() });
                }
            }
        }
        if let Entity::NullConstant { .. } = v {
            if includes_null(t) {
                return Some(Entity::NullConstant { ty: t.clone() });
            }
        }
        if let Entity::UndefinedConstant { .. } = v {
            if includes_undefined(t) {
                return Some(Entity::UndefinedConstant { ty: t.clone() });
            }
        }
        if let Ty::Nullable(b) = t {
            if (**b).same(&s) {
                return Some(Entity::Conversion { ty: t.clone(), from: s, kind: ConversionKind::AsIsToNullable });
            }
            if let Ty::NonNullable(c) = &s {
                if (**c).same(&**b) {
                    return Some(Entity::Conversion { ty: t.clone(), from: s, kind: ConversionKind::NonNullableToNullable });
                }
            }
        }
        if let Ty::NonNullable(c) = &s {
            if (**c).same(t) {
                return Some(Entity::Conversion { ty: t.clone(), from: s, kind: ConversionKind::Widening });
            }
        }
        if numeric(&s) && numeric(t) {
            return Some(Entity::Conversion { ty: t.clone(), from: s, kind: ConversionKind::Widening });
        }
        let se = escape_of_non_nullable(&s);
        let te = escape_of_nullable(t);
        if self.subclass(&se, &te) {
            return Some(Entity::Conversion { ty: t.clone(), from: s, kind: ConversionKind::Widening });
        }
        None
    }

    /// Whether a comparison between values of these types is between unrelated types.
    pub fn unrelated_types(&self, left: &Ty, right: &Ty) -> (r: bool)
        ensures
            r == spec_unrelated_types(self.types@, *left, *right),
    {
        let a = escape_of_nullable_or_non_nullable(left);
        let b = escape_of_nullable_or_non_nullable(right);
        !a.same(&b) && !a.is(Ty::Any) && !a.is(Ty::Object) && !b.is(Ty::Any) && !b.is(Ty::Object)
            && !(numeric(&a) && numeric(&b)) && !self.subclass(&a, &b) && !self.subclass(&b, &a)
    }
}

pub fn convert_number(v: NumberValue, t: &Ty) -> (r: Option<NumberValue>)
    ensures
        r == spec_convert_number(v, *t),
{
    match t {
        Ty::Number => Some(match v {
            NumberValue::Int(x) => NumberValue::Integer(x as i64),
            NumberValue::Uint(x) => NumberValue::Integer(x as i64),
            _ => v,
        }),
        Ty::Float => Some(if v == NumberValue::NaN { NumberValue::NaN } else { NumberValue::Real }),
        Ty::Int => match v {
            NumberValue::Int(x) => Some(NumberValue::Int(x)),
            NumberValue::Uint(x) => Some(NumberValue::Int(x as i32)),
            _ => None,
        },
        Ty::Uint => match v {
            NumberValue::Int(x) => Some(NumberValue::Uint(x as u32)),
            NumberValue::Uint(x) => Some(NumberValue::Uint(x)),
            _ => None,
        },
        _ => None,
    }
}


/// A value of a class converts implicitly to the class it extends: the
/// conversion widens a plain value of the subclass to its superclass.
pub proof fn law_subclass_converts_to_superclass(types: Seq<TypeDef>, v: Entity, derived: usize, base: usize)
    requires
        derived != base,
        derived < types.len(),
        types[derived as int] matches TypeDef::Class(c) && c.extends == Some(Ty::Def(base)),
        v.spec_static_type() == Ty::Def(derived),
        !(v is Invalidation),
    ensures
        spec_implicit(types, v, Ty::Def(base)) is Some,
        v is Value ==> spec_implicit(types, v, Ty::Def(base))
            == Some(Entity::Conversion { ty: Ty::Def(base), from: Ty::Def(derived), kind: ConversionKind::Widening }),
{
    assert(spec_extends(types, Ty::Def(derived), Ty::Def(base), MAX_INHERITANCE_DEPTH as nat));
}

/// An `int` or `uint` constant converts implicitly to the `Number`
/// constant that holds the same integer.
pub proof fn law_integer_constant_converts_to_number(types: Seq<TypeDef>, value: NumberValue, ty: Ty)
    requires
        (value is Int && ty == Ty::Int) || (value is Uint && ty == Ty::Uint),
    ensures
        spec_implicit(types, Entity::NumberConstant { value, ty }, Ty::Number) == Some(Entity::NumberConstant {
            value: NumberValue::Integer(match value {
                NumberValue::Int(x) => x as i64,
                NumberValue::Uint(x) => x as i64,
                _ => 0i64,
            }),
            ty: Ty::Number,
        }),
{
}

/// A value converts implicitly to its own type as it is.
pub proof fn law_value_converts_to_its_own_type(types: Seq<TypeDef>, v: Entity)
    ensures
        spec_implicit(types, v, v.spec_static_type()) == Some(v),
{
}

/// Whether two types are unrelated does not depend on their order.
pub proof fn law_unrelated_types_symmetric(types: Seq<TypeDef>, a: Ty, b: Ty)
    ensures
        spec_unrelated_types(types, a, b) == spec_unrelated_types(types, b, a),
{
}

/// A class and the class it extends are related.
pub proof fn law_subclass_is_related(types: Seq<TypeDef>, derived: usize, base: usize)
    requires
        derived < types.len(),
        types[derived as int] matches TypeDef::Class(c) && c.extends == Some(Ty::Def(base)),
    ensures
        !spec_unrelated_types(types, Ty::Def(derived), Ty::Def(base)),
        !spec_unrelated_types(types, Ty::Def(base), Ty::Def(derived)),
{
    assert(spec_extends(types, Ty::Def(derived), Ty::Def(base), MAX_INHERITANCE_DEPTH as nat));
}

/// A plain value of a class that extends no class does not convert
/// implicitly to a subclass of it: the conversion goes only up the chain.
pub proof fn law_superclass_does_not_convert_to_subclass(types: Seq<TypeDef>, derived: usize, base: usize)
    requires
        derived != base,
        derived < types.len(),
        base < types.len(),
        types[derived as int] matches TypeDef::Class(c) && c.extends == Some(Ty::Def(base)),
        types[base as int] matches TypeDef::Class(c) && c.extends is None,
    ensures
        spec_implicit(types, Entity::Value { ty: Ty::Def(base) }, Ty::Def(derived)) is None,
{
    assert(!spec_extends(types, Ty::Def(base), Ty::Def(derived), MAX_INHERITANCE_DEPTH as nat));
}

/// An import of one property of a package brings that property alone: for
/// any other name it brings nothing, and for its own name it brings the
/// package's property of that name, if the package has one.
pub proof fn law_property_import_brings_only_its_name(db: Database, package: usize, n: String, m: Seq<char>)
    ensures
        m != n@ ==> spec_import_result(db, Import::PackageProperty { package, name: n }, m) is None,
        spec_import_result(db, Import::PackageProperty { package, name: n }, m) matches Some((p, i))
            ==> p == package && 0 <= i < db.packages@[p as int].properties@.len()
                && db.packages@[p as int].properties@[i].name@ == n@,
        m == n@ && package < db.packages@.len()
            && (exists|i: int| 0 <= i < db.packages@[package as int].properties@.len()
                && #[trigger] db.packages@[package as int].properties@[i].name@ == m)
            ==> spec_import_result(db, Import::PackageProperty { package, name: n }, m) is Some,
{
    lemma_found_property_named(db.packages@[package as int].properties@, m);
    if m == n@ && package < db.packages@.len() && (exists|i: int| 0 <= i < db.packages@[package as int].properties@.len()
        && #[trigger] db.packages@[package as int].properties@[i].name@ == m) {
        lemma_named_property_found(db.packages@[package as int].properties@, m);
    }
}

/// Looking a name up through imports ignores a further import of a single
/// property under another name: it neither finds that property nor makes
/// the reference ambiguous.
pub proof fn law_other_property_import_is_ignored(db: Database, imps: Seq<Import>, package: usize, n: String, m: Seq<char>)
    requires
        m != n@,
    ensures
        spec_imports_lookup(db, imps.push(Import::PackageProperty { package, name: n }), m)
            == spec_imports_lookup(db, imps, m),
{
    let all = imps.push(Import::PackageProperty { package, name: n });
    assert(all.drop_last() =~= imps);
    law_property_import_brings_only_its_name(db, package, n, m);
}

/// A wildcard import of a package brings, for any name, the package's
/// property of that name if it has one, and nothing otherwise.
pub proof fn law_wildcard_import_brings_every_name(db: Database, package: usize, m: Seq<char>)
    requires
        package < db.packages@.len(),
    ensures
        spec_import_result(db, Import::PackageWildcard { package }, m) matches Some((p, i))
            ==> p == package && 0 <= i < db.packages@[p as int].properties@.len()
                && db.packages@[p as int].properties@[i].name@ == m,
        (exists|i: int| 0 <= i < db.packages@[package as int].properties@.len()
            && #[trigger] db.packages@[package as int].properties@[i].name@ == m)
            <==> spec_import_result(db, Import::PackageWildcard { package }, m) is Some,
{
    lemma_found_property_named(db.packages@[package as int].properties@, m);
    if exists|i: int| 0 <= i < db.packages@[package as int].properties@.len()
        && #[trigger] db.packages@[package as int].properties@[i].name@ == m {
        lemma_named_property_found(db.packages@[package as int].properties@, m);
    }
}

/// Two wildcard imports of different packages that both hold a property
/// of the name make a reference to it ambiguous.
pub proof fn law_two_packages_with_the_name_are_ambiguous(db: Database, p: usize, q: usize, m: Seq<char>)
    requires
        p != q,
        p < db.packages@.len(),
        q < db.packages@.len(),
        exists|i: int| 0 <= i < db.packages@[p as int].properties@.len() && #[trigger] db.packages@[p as int].properties@[i].name@ == m,
        exists|i: int| 0 <= i < db.packages@[q as int].properties@.len() && #[trigger] db.packages@[q as int].properties@[i].name@ == m,
    ensures
        spec_imports_lookup(db, seq![Import::PackageWildcard { package: p }, Import::PackageWildcard { package: q }], m)
            == ImportLookup::Ambiguous,
{
    law_wildcard_import_brings_every_name(db, p, m);
    law_wildcard_import_brings_every_name(db, q, m);
    let both = seq![Import::PackageWildcard { package: p }, Import::PackageWildcard { package: q }];
    let first = seq![Import::PackageWildcard { package: p }];
    assert(both.drop_last() =~= first);
    assert(first.drop_last() =~= Seq::<Import>::empty());
    assert(first.last() == Import::PackageWildcard { package: p });
    assert(both.last() == Import::PackageWildcard { package: q });
    assert(spec_imports_lookup(db, Seq::<Import>::empty(), m) == ImportLookup::NotFound);
    assert(spec_imports_lookup(db, first, m) is Found);
    assert(spec_imports_lookup(db, first, m)->Found_0 == p);
}

/// A name declared in a scope itself is found there, before the packages
/// and imports of the scope and before its parent scopes.
pub proof fn law_scope_property_shadows(db: Database, s: usize, n: String)
    requires
        s < db.scopes@.len(),
        !(db.scopes@[s as int].kind is Filter),
        exists|i: int| 0 <= i < db.scopes@[s as int].properties@.len() && #[trigger] db.scopes@[s as int].properties@[i].name@ == n@,
    ensures
        spec_lookup_in_scope_chain(db, Some(s), PropertyLookupKey::LocalName(n)) matches Ok(Some(e))
            && exists|i: int| first_named(db.scopes@[s as int].properties@, n@, i)
                && e == spec_property_reference(ReferenceBase::Scope { scope: s, index: i as usize }, db.scopes@[s as int].properties@[i]),
{
    let props = db.scopes@[s as int].properties@;
    lemma_named_property_found(props, n@);
    lemma_found_property_named(props, n@);
    let i = spec_find_property(props, n@).unwrap();
    assert(first_named(props, n@, i));
}

/// A list of properties that holds a property named `name` has a first one.
pub proof fn lemma_named_property_found(props: Seq<Property>, name: Seq<char>)
    requires
        exists|i: int| 0 <= i < props.len() && #[trigger] props[i].name@ == name,
    ensures
        spec_find_property(props, name) is Some,
    decreases props.len(),
{
    let k = choose|i: int| 0 <= i < props.len() && #[trigger] props[i].name@ == name;
    if exists|j: int| 0 <= j < k && #[trigger] props[j].name@ == name {
        let j = choose|j: int| 0 <= j < k && #[trigger] props[j].name@ == name;
        let sub = props.subrange(0, k);
        assert(sub[j].name@ == name);
        lemma_named_property_found(sub, name);
        lemma_found_property_named(sub, name);
        let f = spec_find_property(sub, name).unwrap();
        assert(first_named(props, name, f)) by {
            assert forall|l: int| 0 <= l < f implies (#[trigger] props[l]).name@ != name by {
                assert(sub[l] == props[l]);
            }
            assert(sub[f] == props[f]);
        }
    } else {
        assert(first_named(props, name, k));
    }
}

} // verus!
