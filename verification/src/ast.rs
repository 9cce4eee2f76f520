//! Data model shared by the type checker and the import resolver: source
//! spans, declared types, function and circuit declarations, import
//! specifications, and whole programs. Each executable type has a ghost view
//! (`@`) over mathematical sequences, which the contracts of the two passes
//! are stated over.

use vstd::prelude::*;

verus! {

/// A source-location range attached to declarations and diagnostics.
#[derive(Clone, Copy, PartialEq, Eq, Structural, Debug)]
pub struct Span {
    pub lo: u64,
    pub hi: u64,
}

/// The mode of a function parameter: how the caller supplies the input.
#[derive(Clone, Copy, PartialEq, Eq, Structural, Debug)]
pub enum Mode {
    Constant,
    Private,
    Public,
}

/// The width and signedness of an integer type.
#[derive(Clone, Copy, PartialEq, Eq, Structural, Debug)]
pub enum IntegerType {
    U8,
    U16,
    U32,
    U64,
    U128,
    I8,
    I16,
    I32,
    I64,
    I128,
}

/// A declared type reference. `Composite` names a circuit or record type;
/// its generic arguments, if any, are unresolved at this layer and therefore
/// not modelled, which is what makes `eq_flat` a "flat" comparison of type
/// constructors.
pub enum Type {
    Address,
    Boolean,
    Field,
    Group,
    StringType,
    Integer(IntegerType),
    Composite(String),
}

/// Ghost view of `Type`.
pub enum TypeV {
    Address,
    Boolean,
    Field,
    Group,
    StringType,
    Integer(IntegerType),
    Composite(Seq<char>),
}

impl View for Type {
    type V = TypeV;

    open spec fn view(&self) -> TypeV {
        match self {
            Type::Address => TypeV::Address,
            Type::Boolean => TypeV::Boolean,
            Type::Field => TypeV::Field,
            Type::Group => TypeV::Group,
            Type::StringType => TypeV::StringType,
            Type::Integer(it) => TypeV::Integer(*it),
            Type::Composite(name) => TypeV::Composite(name@),
        }
    }
}

/// Structural ("flat") type equality: equality of type constructors, with
/// integer types compared by width and signedness and composite types by
/// name alone, generic arguments ignored.
pub open spec fn spec_eq_flat(a: TypeV, b: TypeV) -> bool {
    match (a, b) {
        (TypeV::Address, TypeV::Address) => true,
        (TypeV::Boolean, TypeV::Boolean) => true,
        (TypeV::Field, TypeV::Field) => true,
        (TypeV::Group, TypeV::Group) => true,
        (TypeV::StringType, TypeV::StringType) => true,
        (TypeV::Integer(x), TypeV::Integer(y)) => x == y,
        (TypeV::Composite(x), TypeV::Composite(y)) => x == y,
        _ => false,
    }
}

impl Type {
    /// Flat structural equality on declared types.
    pub fn eq_flat(&self, other: &Type) -> (r: bool)
        ensures
            r == spec_eq_flat(self@, other@),
    {
        match self {
            Type::Address => matches!(other, Type::Address),
            Type::Boolean => matches!(other, Type::Boolean),
            Type::Field => matches!(other, Type::Field),
            Type::Group => matches!(other, Type::Group),
            Type::StringType => matches!(other, Type::StringType),
            Type::Integer(x) => match other {
                Type::Integer(y) => *x == *y,
                _ => false,
            },
            Type::Composite(x) => match other {
                Type::Composite(y) => *x == *y,
                _ => false,
            },
        }
    }
}

impl Clone for Type {
    fn clone(&self) -> (r: Self)
        ensures
            r@ == self@,
    {
        match self {
            Type::Address => Type::Address,
            Type::Boolean => Type::Boolean,
            Type::Field => Type::Field,
            Type::Group => Type::Group,
            Type::StringType => Type::StringType,
            Type::Integer(it) => Type::Integer(*it),
            Type::Composite(name) => Type::Composite(name.clone()),
        }
    }
}

/// One function parameter: an identifier, a mode, and a declared type.
/// `type_is_valid` is the verdict of the external type-validity check on the
/// declared type reference; like the block's return summary, the collaborator
/// reports it and the function visitor consumes it.
pub struct Parameter {
    pub name: String,
    pub mode: Mode,
    pub type_: Type,
    pub type_is_valid: bool,
    pub span: Span,
}

/// Ghost view of `Parameter`.
pub struct ParameterV {
    pub name: Seq<char>,
    pub mode: Mode,
    pub type_: TypeV,
    pub type_is_valid: bool,
    pub span: Span,
}

impl View for Parameter {
    type V = ParameterV;

    open spec fn view(&self) -> ParameterV {
        ParameterV {
            name: self.name@,
            mode: self.mode,
            type_: self.type_@,
            type_is_valid: self.type_is_valid,
            span: self.span,
        }
    }
}

impl Clone for Parameter {
    fn clone(&self) -> (r: Self)
        ensures
            r@ == self@,
    {
        Parameter {
            name: self.name.clone(),
            mode: self.mode,
            type_: self.type_.clone(),
            type_is_valid: self.type_is_valid,
            span: self.span,
        }
    }
}

/// A function body. Statement-level analysis belongs to an external statement
/// visitor; this layer consumes the one fact that visitor reports back:
/// whether a reachable return statement exists anywhere in the block.
#[derive(Clone, Copy, PartialEq, Eq, Structural, Debug)]
pub struct Block {
    pub has_return: bool,
}

/// A function declaration: name, ordered parameter list, body, source span.
pub struct Function {
    pub name: String,
    pub span: Span,
    pub parameters: Vec<Parameter>,
    pub block: Block,
}

/// Ghost view of `Function`.
pub struct FunctionV {
    pub name: Seq<char>,
    pub span: Span,
    pub parameters: Seq<ParameterV>,
    pub block: Block,
}

impl View for Function {
    type V = FunctionV;

    open spec fn view(&self) -> FunctionV {
        FunctionV {
            name: self.name@,
            span: self.span,
            parameters: self.parameters@.map_values(|p: Parameter| p@),
            block: self.block,
        }
    }
}

/// One named, typed member of a circuit or record declaration.
pub struct CircuitMember {
    pub name: String,
    pub type_: Type,
    pub span: Span,
}

/// Ghost view of `CircuitMember`.
pub struct CircuitMemberV {
    pub name: Seq<char>,
    pub type_: TypeV,
    pub span: Span,
}

impl View for CircuitMember {
    type V = CircuitMemberV;

    open spec fn view(&self) -> CircuitMemberV {
        CircuitMemberV { name: self.name@, type_: self.type_@, span: self.span }
    }
}

impl Clone for CircuitMember {
    fn clone(&self) -> (r: Self)
        ensures
            r@ == self@,
    {
        CircuitMember { name: self.name.clone(), type_: self.type_.clone(), span: self.span }
    }
}

/// An aggregate type declaration: a circuit, or a record when `is_record`.
pub struct Circuit {
    pub name: String,
    pub span: Span,
    pub is_record: bool,
    pub members: Vec<CircuitMember>,
}

/// Ghost view of `Circuit`.
pub struct CircuitV {
    pub name: Seq<char>,
    pub span: Span,
    pub is_record: bool,
    pub members: Seq<CircuitMemberV>,
}

impl View for Circuit {
    type V = CircuitV;

    open spec fn view(&self) -> CircuitV {
        CircuitV {
            name: self.name@,
            span: self.span,
            is_record: self.is_record,
            members: self.members@.map_values(|m: CircuitMember| m@),
        }
    }
}

impl Clone for Circuit {
    fn clone(&self) -> (r: Self)
        ensures
            r@ == self@,
    {
        let members = self.members.clone();
        proof {
            assert forall|i: int| 0 <= i < members@.len() implies members@[i]@
                == self.members@[i]@ by {
                assert(vstd::pervasive::cloned(self.members@[i], members@[i]));
            }
            assert(members@.map_values(|m: CircuitMember| m@) =~= self.members@.map_values(
                |m: CircuitMember| m@,
            ));
        }
        Circuit {
            name: self.name.clone(),
            span: self.span,
            is_record: self.is_record,
            members,
        }
    }
}

impl Clone for Function {
    fn clone(&self) -> (r: Self)
        ensures
            r@ == self@,
    {
        let parameters = self.parameters.clone();
        proof {
            assert forall|i: int| 0 <= i < parameters@.len() implies parameters@[i]@
                == self.parameters@[i]@ by {
                assert(vstd::pervasive::cloned(self.parameters@[i], parameters@[i]));
            }
            assert(parameters@.map_values(|p: Parameter| p@) =~= self.parameters@.map_values(
                |p: Parameter| p@,
            ));
        }
        Function { name: self.name.clone(), span: self.span, parameters, block: self.block }
    }
}

/// One symbol requested by an import, with an optional alias.
pub struct ImportSymbol {
    pub symbol: String,
    pub alias: Option<String>,
    pub span: Span,
}

/// Ghost view of `ImportSymbol`.
pub struct ImportSymbolV {
    pub symbol: Seq<char>,
    pub alias: Option<Seq<char>>,
    pub span: Span,
}

impl View for ImportSymbol {
    type V = ImportSymbolV;

    open spec fn view(&self) -> ImportSymbolV {
        ImportSymbolV {
            symbol: self.symbol@,
            alias: match &self.alias {
                Some(a) => Some(a@),
                None => None,
            },
            span: self.span,
        }
    }
}

/// A package-access specification: import everything, one named symbol, a
/// nested sub-package, or an ordered list of accesses applied in turn.
pub enum PackageAccess {
    Star(Span),
    SubPackage(Box<Package>),
    Symbol(ImportSymbol),
    Multiple(Vec<PackageAccess>),
}

/// A package descriptor: a name locating a source file or directory, and the
/// access to apply to it.
pub struct Package {
    pub name: String,
    pub span: Span,
    pub access: PackageAccess,
}

/// Ghost view of `PackageAccess`.
pub enum AccessV {
    Star(Span),
    SubPackage(Box<PackageV>),
    Symbol(ImportSymbolV),
    Multiple(Seq<AccessV>),
}

/// Ghost view of `Package`.
pub struct PackageV {
    pub name: Seq<char>,
    pub span: Span,
    pub access: AccessV,
}

/// Recursive view of a package-access tree.
pub open spec fn access_view(a: PackageAccess) -> AccessV
    decreases a,
{
    match a {
        PackageAccess::Star(span) => AccessV::Star(span),
        PackageAccess::Symbol(sym) => AccessV::Symbol(sym@),
        PackageAccess::SubPackage(p) => AccessV::SubPackage(Box::new(package_view(*p))),
        PackageAccess::Multiple(list) => AccessV::Multiple(accesses_view(list@)),
    }
}

/// Recursive view of a list of package accesses.
pub open spec fn accesses_view(list: Seq<PackageAccess>) -> Seq<AccessV>
    decreases list,
{
    if list.len() == 0 {
        Seq::empty()
    } else {
        seq![access_view(list[0])] + accesses_view(list.drop_first())
    }
}

/// The view of a list of accesses is the pointwise view of its elements.
pub proof fn lemma_accesses_view(list: Seq<PackageAccess>)
    ensures
        accesses_view(list).len() == list.len(),
        forall|i: int| 0 <= i < list.len() ==> accesses_view(list)[i] == access_view(list[i]),
    decreases list,
{
    if list.len() > 0 {
        lemma_accesses_view(list.drop_first());
    }
}

/// Recursive view of a package descriptor.
pub open spec fn package_view(p: Package) -> PackageV
    decreases p,
{
    PackageV { name: p.name@, span: p.span, access: access_view(p.access) }
}

impl View for PackageAccess {
    type V = AccessV;

    open spec fn view(&self) -> AccessV {
        access_view(*self)
    }
}

impl View for Package {
    type V = PackageV;

    open spec fn view(&self) -> PackageV {
        package_view(*self)
    }
}

/// One import declaration of a program.
pub struct Import {
    pub package: Package,
    pub span: Span,
}

/// The views of a list of import declarations.
pub open spec fn imports_view(v: Seq<Import>) -> Seq<ImportV> {
    v.map_values(|im: Import| im@)
}

/// Ghost view of `Import`.
pub struct ImportV {
    pub package: PackageV,
    pub span: Span,
}

impl View for Import {
    type V = ImportV;

    open spec fn view(&self) -> ImportV {
        ImportV { package: self.package@, span: self.span }
    }
}

/// A named unit of source: circuit and function declarations kept in
/// declaration order, plus the unit's own import declarations. Produced by
/// the parser collaborator; consumed when its declarations are merged or
/// selectively copied into an importing program.
pub struct Program {
    pub name: String,
    pub circuits: Vec<Circuit>,
    pub functions: Vec<Function>,
    pub imports: Vec<Import>,
}

/// Ghost view of `Program`.
pub struct ProgramV {
    pub name: Seq<char>,
    pub circuits: Seq<CircuitV>,
    pub functions: Seq<FunctionV>,
    pub imports: Seq<ImportV>,
}

impl View for Program {
    type V = ProgramV;

    open spec fn view(&self) -> ProgramV {
        ProgramV {
            name: self.name@,
            circuits: self.circuits@.map_values(|c: Circuit| c@),
            functions: self.functions@.map_values(|f: Function| f@),
            imports: imports_view(self.imports@),
        }
    }
}

/// Structural size of an import declaration, used as a termination measure
/// by the resolver.
pub open spec fn import_size(i: ImportV) -> nat
    decreases i,
{
    1 + package_size(i.package)
}

/// Structural size of a package descriptor.
pub open spec fn package_size(p: PackageV) -> nat
    decreases p,
{
    1 + access_size(p.access)
}

/// Structural size of a package-access tree.
pub open spec fn access_size(a: AccessV) -> nat
    decreases a,
{
    match a {
        AccessV::Star(_) => 1,
        AccessV::Symbol(_) => 1,
        AccessV::SubPackage(p) => 1 + package_size(*p),
        AccessV::Multiple(list) => 1 + accesses_size(list),
    }
}

/// Total structural size of a list of package accesses.
pub open spec fn accesses_size(list: Seq<AccessV>) -> nat
    decreases list,
{
    if list.len() == 0 {
        0
    } else {
        access_size(list[0]) + accesses_size(list.drop_first())
    }
}

/// Each element of a list of accesses weighs no more than the whole list.
pub proof fn lemma_access_size_le(list: Seq<AccessV>, i: int)
    requires
        0 <= i < list.len(),
    ensures
        access_size(list[i]) <= accesses_size(list),
    decreases list.len(),
{
    if i == 0 {
    } else {
        lemma_access_size_le(list.drop_first(), i - 1);
        assert(list.drop_first()[i - 1] == list[i]);
    }
}

} // verus!

