//! Diagnostics of the type-checking pass and the handler that accumulates
//! them. Type checking is fail-soft: every violated rule is reported through
//! the handler and analysis continues, so one compilation attempt surfaces as
//! many diagnostics as possible.

use vstd::prelude::*;
use crate::ast::Span;
use crate::ast::Type;
use crate::ast::TypeV;

verus! {

/// One diagnostic of the type checker.
pub enum TypeCheckerError {
    /// Two function parameters share a name; `name` and `span` are the later
    /// parameter's.
    DuplicateVariable { name: String, span: Span },
    /// A function body contains no reachable return statement; `name` and
    /// `span` are the function's.
    FunctionHasNoReturn { name: String, span: Span },
    /// Two members of a record share a name; `name` and `span` are the
    /// record declaration's.
    DuplicateRecordVariable { name: String, span: Span },
    /// Two members of a non-record circuit share a name; `name` and `span`
    /// are the circuit declaration's.
    DuplicateCircuitMember { name: String, span: Span },
    /// The external type-validity check rejected a declared type reference;
    /// `span` is the rejected reference's.
    InvalidType { span: Span },
    /// A record lacks a mandatory member; `field` names it and `expected`
    /// gives the type it must carry.
    RequiredRecordVariable { field: String, expected: Type, span: Span },
    /// A mandatory record member is present but carries the wrong type.
    RecordVarWrongType { field: String, expected: Type, span: Span },
}

/// Ghost view of `TypeCheckerError`.
pub enum TypeCheckerErrorV {
    DuplicateVariable { name: Seq<char>, span: Span },
    InvalidType { span: Span },
    FunctionHasNoReturn { name: Seq<char>, span: Span },
    DuplicateRecordVariable { name: Seq<char>, span: Span },
    DuplicateCircuitMember { name: Seq<char>, span: Span },
    RequiredRecordVariable { field: Seq<char>, expected: TypeV, span: Span },
    RecordVarWrongType { field: Seq<char>, expected: TypeV, span: Span },
}

impl View for TypeCheckerError {
    type V = TypeCheckerErrorV;

    open spec fn view(&self) -> TypeCheckerErrorV {
        match self {
            TypeCheckerError::DuplicateVariable { name, span } => {
                TypeCheckerErrorV::DuplicateVariable { name: name@, span: *span }
            },
            TypeCheckerError::FunctionHasNoReturn { name, span } => {
                TypeCheckerErrorV::FunctionHasNoReturn { name: name@, span: *span }
            },
            TypeCheckerError::InvalidType { span } => {
                TypeCheckerErrorV::InvalidType { span: *span }
            },
            TypeCheckerError::DuplicateRecordVariable { name, span } => {
                TypeCheckerErrorV::DuplicateRecordVariable { name: name@, span: *span }
            },
            TypeCheckerError::DuplicateCircuitMember { name, span } => {
                TypeCheckerErrorV::DuplicateCircuitMember { name: name@, span: *span }
            },
            TypeCheckerError::RequiredRecordVariable { field, expected, span } => {
                TypeCheckerErrorV::RequiredRecordVariable {
                    field: field@,
                    expected: expected@,
                    span: *span,
                }
            },
            TypeCheckerError::RecordVarWrongType { field, expected, span } => {
                TypeCheckerErrorV::RecordVarWrongType {
                    field: field@,
                    expected: expected@,
                    span: *span,
                }
            },
        }
    }
}

/// The diagnostic sink threaded through the type-checking traversal. It only
/// accumulates: emitting never aborts the walk.
pub struct Handler {
    pub diags: Vec<TypeCheckerError>,
}

impl View for Handler {
    type V = Seq<TypeCheckerErrorV>;

    open spec fn view(&self) -> Seq<TypeCheckerErrorV> {
        self.diags@.map_values(|d: TypeCheckerError| d@)
    }
}

impl Handler {
    /// An empty handler: no diagnostics yet.
    pub fn new() -> (r: Handler)
        ensures
            r@ == Seq::<TypeCheckerErrorV>::empty(),
    {
        let h = Handler { diags: Vec::new() };
        proof {
            assert(h@ =~= Seq::<TypeCheckerErrorV>::empty());
        }
        h
    }

    /// Record one diagnostic and continue.
    pub fn emit_err(&mut self, err: TypeCheckerError)
        ensures
            final(self)@ == old(self)@.push(err@),
    {
        let ghost prior = self@;
        self.diags.push(err);
        proof {
            assert(self@ =~= prior.push(err@));
        }
    }

    /// How many diagnostics have been recorded.
    pub fn err_count(&self) -> (n: usize)
        ensures
            n == self@.len(),
    {
        self.diags.len()
    }
}

} // verus!
