//! The per-function symbol table of the type checker: variable bindings for
//! the function currently being checked, with duplicate detection on insert
//! and a bulk clear at the start of each function visit. No nested block
//! scoping is modelled at this layer; that belongs to the external statement
//! visitor.

use vstd::prelude::*;
use crate::ast::Mode;
use crate::ast::Span;
use crate::ast::Type;
use crate::ast::TypeV;
use crate::diagnostics::TypeCheckerError;
use crate::diagnostics::TypeCheckerErrorV;

verus! {

/// Why a variable is in scope. Currently the only kind is a function input,
/// carrying the parameter's mode.
#[derive(Clone, Copy, PartialEq, Eq, Structural, Debug)]
pub enum Declaration {
    Input(Mode),
}

/// One variable binding: the declared type, the declaration site, and the
/// kind of declaration.
pub struct VariableSymbol {
    pub type_: Type,
    pub span: Span,
    pub declaration: Declaration,
}

/// Ghost view of `VariableSymbol`.
pub struct VariableSymbolV {
    pub type_: TypeV,
    pub span: Span,
    pub declaration: Declaration,
}

impl View for VariableSymbol {
    type V = VariableSymbolV;

    open spec fn view(&self) -> VariableSymbolV {
        VariableSymbolV { type_: self.type_@, span: self.span, declaration: self.declaration }
    }
}

/// The mapping a sequence of bindings denotes, later entries winning. The
/// table only ever inserts absent keys, so its entries' keys are distinct and
/// the direction does not matter.
pub open spec fn table_view(entries: Seq<(String, VariableSymbol)>) -> Map<
    Seq<char>,
    VariableSymbolV,
>
    decreases entries,
{
    if entries.len() == 0 {
        Map::empty()
    } else {
        table_view(entries.drop_last()).insert(entries.last().0@, entries.last().1@)
    }
}

/// A key is in the mapping exactly when some entry carries it.
pub proof fn lemma_table_view_dom(entries: Seq<(String, VariableSymbol)>, key: Seq<char>)
    ensures
        table_view(entries).contains_key(key) <==> exists|i: int|
            0 <= i < entries.len() && entries[i].0@ == key,
    decreases entries,
{
    if entries.len() > 0 {
        lemma_table_view_dom(entries.drop_last(), key);
        if entries.last().0@ == key {
            assert(entries[entries.len() - 1].0@ == key);
        } else if exists|i: int| 0 <= i < entries.len() && entries[i].0@ == key {
            let i = choose|i: int| 0 <= i < entries.len() && entries[i].0@ == key;
            assert(entries.drop_last()[i].0@ == key);
        }
    }
}

/// Per-function variable scope with duplicate detection.
pub struct SymbolTable {
    pub entries: Vec<(String, VariableSymbol)>,
}

impl View for SymbolTable {
    type V = Map<Seq<char>, VariableSymbolV>;

    open spec fn view(&self) -> Map<Seq<char>, VariableSymbolV> {
        table_view(self.entries@)
    }
}

impl SymbolTable {
    /// An empty table.
    pub fn new() -> (r: SymbolTable)
        ensures
            r@ == Map::<Seq<char>, VariableSymbolV>::empty(),
    {
        SymbolTable { entries: Vec::new() }
    }

    /// Whether a binding with this name is present.
    pub fn contains(&self, name: &String) -> (r: bool)
        ensures
            r == self@.contains_key(name@),
    {
        let n = self.entries.len();
        let mut i: usize = 0;
        while i < n
            invariant
                0 <= i <= n,
                n == self.entries@.len(),
                forall|j: int| 0 <= j < i ==> self.entries@[j].0@ != name@,
            decreases n - i,
        {
            if self.entries[i].0 == *name {
                proof {
                    lemma_table_view_dom(self.entries@, name@);
                }
                return true;
            }
            i = i + 1;
        }
        proof {
            lemma_table_view_dom(self.entries@, name@);
        }
        false
    }

    /// Insert a binding. If the name is already bound, report a duplicate
    /// variable and leave the table as it was: whichever entry was present
    /// at the time of the failed insert is retained.
    pub fn insert_variable(&mut self, name: String, symbol: VariableSymbol) -> (r: Result<
        (),
        TypeCheckerError,
    >)
        ensures
            r is Ok <==> !old(self)@.contains_key(name@),
            r is Ok ==> final(self)@ == old(self)@.insert(name@, symbol@),
            r is Err ==> final(self)@ == old(self)@,
            r matches Err(e) ==> e@ == (TypeCheckerErrorV::DuplicateVariable {
                name: name@,
                span: symbol.span,
            }),
    {
        if self.contains(&name) {
            let span = symbol.span;
            Err(TypeCheckerError::DuplicateVariable { name, span })
        } else {
            let ghost prior = self.entries@;
            self.entries.push((name, symbol));
            proof {
                assert(self.entries@.drop_last() =~= prior);
            }
            Ok(())
        }
    }

    /// Remove every binding.
    pub fn clear_variables(&mut self)
        ensures
            final(self)@ == Map::<Seq<char>, VariableSymbolV>::empty(),
    {
        self.entries = Vec::new();
    }
}

} // verus!
