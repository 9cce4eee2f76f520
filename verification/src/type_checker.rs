//! The type-checking visitor over function and circuit/record declarations.
//! Its contracts pin down, for every input, exactly which diagnostics a visit
//! appends to the handler, what the symbol table holds afterwards, and that
//! analysis always runs to completion: diagnostics accumulate, they never
//! abort the walk.

use vstd::prelude::*;
use vstd::string::StringExecFns;
use crate::ast::Circuit;
use crate::ast::CircuitMember;
use crate::ast::CircuitMemberV;
use crate::ast::CircuitV;
use crate::ast::Block;
use crate::ast::Function;
use crate::ast::FunctionV;
use crate::ast::IntegerType;
use crate::ast::ParameterV;
use crate::ast::Type;
use crate::ast::TypeV;
use crate::ast::spec_eq_flat;
use crate::diagnostics::Handler;
use crate::diagnostics::TypeCheckerError;
use crate::diagnostics::TypeCheckerErrorV;
use crate::symbol_table::Declaration;
use crate::symbol_table::SymbolTable;
use crate::symbol_table::VariableSymbol;
use crate::symbol_table::VariableSymbolV;

verus! {

/// Parameter `i` collides when an earlier parameter shares its name.
pub open spec fn param_is_dup(params: Seq<ParameterV>, i: int) -> bool {
    exists|j: int| 0 <= j < i && params[j].name == params[i].name
}

/// The binding a parameter contributes to the symbol table.
pub open spec fn param_symbol(p: ParameterV) -> VariableSymbolV {
    VariableSymbolV { type_: p.type_, span: p.span, declaration: Declaration::Input(p.mode) }
}

/// The symbol table built from the first `n` parameters: each name is bound
/// at its first occurrence, later occurrences are rejected.
pub open spec fn param_table(params: Seq<ParameterV>, n: int) -> Map<Seq<char>, VariableSymbolV>
    decreases n,
{
    if n <= 0 {
        Map::empty()
    } else {
        let m = param_table(params, n - 1);
        if m.contains_key(params[n - 1].name) {
            m
        } else {
            m.insert(params[n - 1].name, param_symbol(params[n - 1]))
        }
    }
}

/// A name is bound after `n` parameters exactly when one of them carries it.
pub proof fn lemma_param_table_dom(params: Seq<ParameterV>, n: int, key: Seq<char>)
    requires
        0 <= n <= params.len(),
    ensures
        param_table(params, n).contains_key(key) <==> exists|j: int|
            0 <= j < n && params[j].name == key,
    decreases n,
{
    if n > 0 {
        lemma_param_table_dom(params, n - 1, key);
    }
}

/// The diagnostics emitted for the first `n` parameters, in parameter
/// order: for each parameter, first the invalid-type diagnostic when the
/// external type-validity check rejected its declared type reference, then
/// one duplicate-variable diagnostic when its name repeats an earlier
/// parameter's.
pub open spec fn param_diags(params: Seq<ParameterV>, n: int) -> Seq<TypeCheckerErrorV>
    decreases n,
{
    if n <= 0 {
        Seq::empty()
    } else {
        param_diags(params, n - 1) + (if !params[n - 1].type_is_valid {
            seq![TypeCheckerErrorV::InvalidType { span: params[n - 1].span }]
        } else {
            Seq::empty()
        }) + if param_is_dup(params, n - 1) {
            seq![
                TypeCheckerErrorV::DuplicateVariable {
                    name: params[n - 1].name,
                    span: params[n - 1].span,
                },
            ]
        } else {
            Seq::empty()
        }
    }
}

/// Everything a function visit reports: the duplicate-variable diagnostics in
/// parameter order, then one missing-return diagnostic when the body has no
/// reachable return statement.
pub open spec fn function_diags(f: FunctionV) -> Seq<TypeCheckerErrorV> {
    param_diags(f.parameters, f.parameters.len() as int) + if !f.block.has_return {
        seq![TypeCheckerErrorV::FunctionHasNoReturn { name: f.name, span: f.span }]
    } else {
        Seq::empty()
    }
}

/// Two members of the declaration share a name.
pub open spec fn has_dup_member(members: Seq<CircuitMemberV>) -> bool {
    exists|i: int, j: int|
        0 <= i < j < members.len() && members[i].name == members[j].name
}

/// The single diagnostic a member-name collision produces: its wording
/// depends on whether the declaration is a record.
pub open spec fn dup_member_diag(c: CircuitV) -> TypeCheckerErrorV {
    if c.is_record {
        TypeCheckerErrorV::DuplicateRecordVariable { name: c.name, span: c.span }
    } else {
        TypeCheckerErrorV::DuplicateCircuitMember { name: c.name, span: c.span }
    }
}

/// The first member carrying the given name, if any.
pub open spec fn find_member(members: Seq<CircuitMemberV>, name: Seq<char>) -> Option<
    CircuitMemberV,
>
    decreases members,
{
    if members.len() == 0 {
        None
    } else if members[0].name == name {
        Some(members[0])
    } else {
        find_member(members.drop_first(), name)
    }
}

/// What checking one mandatory record field reports: nothing when the field
/// is present with the expected type (under flat type equality), a
/// wrong-type diagnostic when it is present with another type, and a
/// missing-field diagnostic when it is absent. The two diagnostics are
/// mutually exclusive per field.
pub open spec fn record_field_diags(c: CircuitV, field: Seq<char>, expected: TypeV) -> Seq<
    TypeCheckerErrorV,
> {
    match find_member(c.members, field) {
        Some(m) => if spec_eq_flat(expected, m.type_) {
            Seq::empty()
        } else {
            seq![
                TypeCheckerErrorV::RecordVarWrongType { field: m.name, expected, span: c.span },
            ]
        },
        None => seq![
            TypeCheckerErrorV::RequiredRecordVariable { field, expected, span: c.span },
        ],
    }
}

/// Everything a circuit visit reports: at most one duplicate-member
/// diagnostic for the whole declaration, then, for records only, the checks
/// of the two mandatory fields, `owner` of address type and `balance` of
/// 64-bit unsigned integer type. The mandatory-field checks are independent
/// of the collision check; both may fire for one declaration.
pub open spec fn circuit_diags(c: CircuitV) -> Seq<TypeCheckerErrorV> {
    (if has_dup_member(c.members) {
        seq![dup_member_diag(c)]
    } else {
        Seq::empty()
    }) + if c.is_record {
        record_field_diags(c, "owner"@, TypeV::Address) + record_field_diags(
            c,
            "balance"@,
            TypeV::Integer(IntegerType::U64),
        )
    } else {
        Seq::empty()
    }
}

/// The type-checking visitor: per-function symbol table, accumulated
/// diagnostics, the has-return flag the statement visitor maintains, and the
/// name of the function currently being checked.
pub struct TypeChecker {
    pub symbol_table: SymbolTable,
    pub handler: Handler,
    pub has_return: bool,
    pub parent: Option<String>,
}

impl TypeChecker {
    /// A fresh visitor with no diagnostics and an empty scope.
    pub fn new() -> (r: TypeChecker)
        ensures
            r.handler@ == Seq::<TypeCheckerErrorV>::empty(),
            r.symbol_table@ == Map::<Seq<char>, VariableSymbolV>::empty(),
            r.has_return == false,
            r.parent is None,
    {
        TypeChecker {
            symbol_table: SymbolTable::new(),
            handler: Handler::new(),
            has_return: false,
            parent: None,
        }
    }

    /// Stands in for the external statement visitor: walking a block raises
    /// the has-return flag when the block contains a reachable return
    /// statement, and never lowers it.
    pub fn visit_block(&mut self, block: &Block)
        ensures
            final(self).has_return == (old(self).has_return || block.has_return),
            final(self).symbol_table == old(self).symbol_table,
            final(self).handler == old(self).handler,
            final(self).parent == old(self).parent,
    {
        if block.has_return {
            self.has_return = true;
        }
    }

    /// Check one function declaration: reset the per-function state, bind
    /// each parameter in declaration order (reporting one duplicate-variable
    /// diagnostic per colliding parameter and keeping the earlier binding),
    /// visit the body, and require a reachable return statement. Analysis
    /// always completes; diagnostics only accumulate.
    pub fn visit_function(&mut self, input: &Function)
        ensures
            final(self).handler@ == old(self).handler@ + function_diags(input@),
            final(self).symbol_table@ == param_table(
                input@.parameters,
                input@.parameters.len() as int,
            ),
            final(self).has_return == input.block.has_return,
            final(self).parent == Some(input.name),
    {
        self.has_return = false;
        self.symbol_table.clear_variables();
        self.parent = Some(input.name.clone());

        let ghost prior = self.handler@;
        let ghost params = input@.parameters;
        let n = input.parameters.len();
        let mut i: usize = 0;
        while i < n
            invariant
                0 <= i <= n,
                n == input.parameters@.len(),
                params == input@.parameters,
                params.len() == n,
                self.symbol_table@ == param_table(params, i as int),
                self.handler@ == prior + param_diags(params, i as int),
                self.has_return == false,
                self.parent == Some(input.name),
            decreases n - i,
        {
            let p = &input.parameters[i];
            proof {
                assert(p@ == params[i as int]);
            }
            // the external type-validity check's verdict on the declared
            // type reference is reported before the insert is attempted
            if !p.type_is_valid {
                self.handler.emit_err(TypeCheckerError::InvalidType { span: p.span });
            }
            let symbol = VariableSymbol {
                type_: p.type_.clone(),
                span: p.span,
                declaration: Declaration::Input(p.mode),
            };
            proof {
                lemma_param_table_dom(params, i as int, params[i as int].name);
            }
            match self.symbol_table.insert_variable(p.name.clone(), symbol) {
                Ok(()) => {
                    proof {
                        assert(!param_is_dup(params, i as int));
                        assert(self.handler@ =~= prior + param_diags(params, i as int + 1));
                    }
                },
                Err(err) => {
                    proof {
                        assert(param_is_dup(params, i as int));
                    }
                    self.handler.emit_err(err);
                    proof {
                        assert(self.handler@ =~= prior + param_diags(params, i as int + 1));
                    }
                },
            }
            i = i + 1;
        }

        self.visit_block(&input.block);

        if !self.has_return {
            self.handler.emit_err(
                TypeCheckerError::FunctionHasNoReturn { name: input.name.clone(), span: input.span },
            );
            proof {
                assert(self.handler@ =~= prior + function_diags(input@));
            }
        } else {
            proof {
                assert(self.handler@ =~= prior + function_diags(input@));
            }
        }
    }

    /// Whether two members of the declaration share a name.
    fn members_have_dup(members: &Vec<CircuitMember>) -> (r: bool)
        ensures
            r == has_dup_member(members@.map_values(|m: CircuitMember| m@)),
    {
        let ghost ms = members@.map_values(|m: CircuitMember| m@);
        let n = members.len();
        let mut i: usize = 0;
        while i < n
            invariant
                0 <= i <= n,
                n == members@.len(),
                ms == members@.map_values(|m: CircuitMember| m@),
                ms.len() == n,
                forall|a: int, b: int| 0 <= a < b < i ==> ms[a].name != ms[b].name,
            decreases n - i,
        {
            let mut j: usize = 0;
            while j < i
                invariant
                    0 <= j <= i < n,
                    n == members@.len(),
                    ms == members@.map_values(|m: CircuitMember| m@),
                    ms.len() == n,
                    forall|b: int| 0 <= b < j ==> ms[b].name != ms[i as int].name,
                decreases i - j,
            {
                if members[j].name == members[i].name {
                    proof {
                        assert(ms[j as int].name == ms[i as int].name);
                    }
                    return true;
                }
                j = j + 1;
            }
            i = i + 1;
        }
        false
    }

    /// Check one mandatory record field: search the members in order for the
    /// first name match and report a missing or wrong-typed field.
    fn check_record_field(&mut self, input: &Circuit, field: String, expected: Type)
        ensures
            final(self).handler@ == old(self).handler@ + record_field_diags(
                input@,
                field@,
                expected@,
            ),
            final(self).symbol_table == old(self).symbol_table,
            final(self).has_return == old(self).has_return,
            final(self).parent == old(self).parent,
    {
        let ghost ms = input@.members;
        let n = input.members.len();
        let mut i: usize = 0;
        while i < n
            invariant
                0 <= i <= n,
                n == input.members@.len(),
                ms == input@.members,
                ms.len() == n,
                forall|j: int| 0 <= j < i ==> ms[j].name != field@,
                self == old(self),
            decreases n - i,
        {
            if input.members[i].name == field {
                let m = &input.members[i];
                proof {
                    assert(m@ == ms[i as int]);
                    lemma_find_member_at(ms, field@, i as int);
                }
                if expected.eq_flat(&m.type_) {
                    // present with the expected type: nothing to report
                } else {
                    self.handler.emit_err(
                        TypeCheckerError::RecordVarWrongType {
                            field: m.name.clone(),
                            expected,
                            span: input.span,
                        },
                    );
                    proof {
                        assert(self.handler@ =~= old(self).handler@ + record_field_diags(
                            input@,
                            field@,
                            expected@,
                        ));
                    }
                }
                return ;
            }
            i = i + 1;
        }
        proof {
            lemma_find_member_absent(ms, field@);
        }
        self.handler.emit_err(
            TypeCheckerError::RequiredRecordVariable { field, expected, span: input.span },
        );
        proof {
            assert(self.handler@ =~= old(self).handler@ + record_field_diags(
                input@,
                field@,
                expected@,
            ));
        }
    }

    /// Check one aggregate-type declaration: report a member-name collision
    /// once for the whole declaration (worded for records and plain circuits
    /// separately), then, for records, check the mandatory `owner` and
    /// `balance` fields. Both checks are independent; analysis always
    /// completes.
    pub fn visit_circuit(&mut self, input: &Circuit)
        ensures
            final(self).handler@ == old(self).handler@ + circuit_diags(input@),
            final(self).symbol_table == old(self).symbol_table,
            final(self).has_return == old(self).has_return,
            final(self).parent == old(self).parent,
    {
        let ghost prior = self.handler@;
        if Self::members_have_dup(&input.members) {
            if input.is_record {
                self.handler.emit_err(
                    TypeCheckerError::DuplicateRecordVariable {
                        name: input.name.clone(),
                        span: input.span,
                    },
                );
            } else {
                self.handler.emit_err(
                    TypeCheckerError::DuplicateCircuitMember {
                        name: input.name.clone(),
                        span: input.span,
                    },
                );
            }
        }
        if input.is_record {
            self.check_record_field(input, String::from_str("owner"), Type::Address);
            self.check_record_field(
                input,
                String::from_str("balance"),
                Type::Integer(IntegerType::U64),
            );
            proof {
                assert(self.handler@ =~= prior + circuit_diags(input@));
            }
        } else {
            proof {
                assert(self.handler@ =~= prior + circuit_diags(input@));
            }
        }
    }
}

/// When the first `i` members miss the name and member `i` carries it, the
/// search finds member `i`.
pub proof fn lemma_find_member_at(members: Seq<CircuitMemberV>, name: Seq<char>, i: int)
    requires
        0 <= i < members.len(),
        members[i].name == name,
        forall|j: int| 0 <= j < i ==> members[j].name != name,
    ensures
        find_member(members, name) == Some(members[i]),
    decreases i,
{
    if i > 0 {
        lemma_find_member_at(members.drop_first(), name, i - 1);
    }
}

/// When no member carries the name, the search finds nothing.
pub proof fn lemma_find_member_absent(members: Seq<CircuitMemberV>, name: Seq<char>)
    requires
        forall|j: int| 0 <= j < members.len() ==> members[j].name != name,
    ensures
        find_member(members, name) is None,
    decreases members,
{
    if members.len() > 0 {
        lemma_find_member_absent(members.drop_first(), name);
    }
}

} // verus!

verus! {

/// How many of the first `n` parameters carry the name.
pub open spec fn count_named(params: Seq<ParameterV>, name: Seq<char>, n: int) -> int
    decreases n,
{
    if n <= 0 {
        0
    } else {
        count_named(params, name, n - 1) + if params[n - 1].name == name {
            1int
        } else {
            0int
        }
    }
}

/// Whether a diagnostic is a duplicate-variable report for the name.
pub open spec fn is_dup_var_for(d: TypeCheckerErrorV, name: Seq<char>) -> bool {
    match d {
        TypeCheckerErrorV::DuplicateVariable { name: n, span } => n == name,
        _ => false,
    }
}

/// How many duplicate-variable diagnostics for the name a diagnostic
/// sequence holds.
pub open spec fn count_dup_var(diags: Seq<TypeCheckerErrorV>, name: Seq<char>) -> int
    decreases diags,
{
    if diags.len() == 0 {
        0
    } else {
        count_dup_var(diags.drop_last(), name) + if is_dup_var_for(diags.last(), name) {
            1int
        } else {
            0int
        }
    }
}

/// How many missing-return diagnostics a diagnostic sequence holds.
pub open spec fn count_no_return(diags: Seq<TypeCheckerErrorV>) -> int
    decreases diags,
{
    if diags.len() == 0 {
        0
    } else {
        count_no_return(diags.drop_last()) + if diags.last() is FunctionHasNoReturn {
            1int
        } else {
            0int
        }
    }
}

/// Counting distributes over concatenation.
proof fn lemma_count_dup_var_append(a: Seq<TypeCheckerErrorV>, b: Seq<TypeCheckerErrorV>, name: Seq<char>)
    ensures
        count_dup_var(a + b, name) == count_dup_var(a, name) + count_dup_var(b, name),
    decreases b,
{
    if b.len() == 0 {
        assert(a + b =~= a);
    } else {
        lemma_count_dup_var_append(a, b.drop_last(), name);
        assert((a + b).drop_last() =~= a + b.drop_last());
        assert((a + b).last() == b.last());
    }
}

/// Counting distributes over concatenation.
proof fn lemma_count_no_return_append(a: Seq<TypeCheckerErrorV>, b: Seq<TypeCheckerErrorV>)
    ensures
        count_no_return(a + b) == count_no_return(a) + count_no_return(b),
    decreases b,
{
    if b.len() == 0 {
        assert(a + b =~= a);
    } else {
        lemma_count_no_return_append(a, b.drop_last());
        assert((a + b).drop_last() =~= a + b.drop_last());
        assert((a + b).last() == b.last());
    }
}

/// A name occurs among the first `n` parameters exactly when its count is
/// positive.
proof fn lemma_count_named_pos(params: Seq<ParameterV>, name: Seq<char>, n: int)
    requires
        0 <= n <= params.len(),
    ensures
        count_named(params, name, n) >= 0,
        (count_named(params, name, n) >= 1) <==> (exists|j: int|
            0 <= j < n && params[j].name == name),
    decreases n,
{
    if n > 0 {
        lemma_count_named_pos(params, name, n - 1);
        if params[n - 1].name == name {
        } else if exists|j: int| 0 <= j < n && params[j].name == name {
            let j = choose|j: int| 0 <= j < n && params[j].name == name;
            assert(0 <= j < n - 1 && params[j].name == name);
        }
    }
}

/// The parameter diagnostics report each repetition of a name once: one
/// duplicate-variable diagnostic fewer than the name has occurrences.
proof fn lemma_param_diags_count(params: Seq<ParameterV>, name: Seq<char>, n: int)
    requires
        0 <= n <= params.len(),
    ensures
        count_dup_var(param_diags(params, n), name) == if count_named(params, name, n) >= 1 {
            count_named(params, name, n) - 1
        } else {
            0int
        },
    decreases n,
{
    lemma_count_named_pos(params, name, n);
    if n > 0 {
        lemma_param_diags_count(params, name, n - 1);
        lemma_count_named_pos(params, name, n - 1);
        lemma_count_named_pos(params, params[n - 1].name, n - 1);
        let tv: Seq<TypeCheckerErrorV> = if !params[n - 1].type_is_valid {
            seq![TypeCheckerErrorV::InvalidType { span: params[n - 1].span }]
        } else {
            Seq::empty()
        };
        let td: Seq<TypeCheckerErrorV> = if param_is_dup(params, n - 1) {
            seq![
                TypeCheckerErrorV::DuplicateVariable {
                    name: params[n - 1].name,
                    span: params[n - 1].span,
                },
            ]
        } else {
            Seq::empty()
        };
        assert(param_diags(params, n) == param_diags(params, n - 1) + tv + td);
        lemma_count_dup_var_append(param_diags(params, n - 1) + tv, td, name);
        lemma_count_dup_var_append(param_diags(params, n - 1), tv, name);
        if tv.len() == 1 {
            assert(count_dup_var(tv, name) == 0) by {
                reveal_with_fuel(count_dup_var, 2);
                assert(tv.drop_last() =~= Seq::<TypeCheckerErrorV>::empty());
                assert(count_dup_var(tv.drop_last(), name) == 0);
                assert(!is_dup_var_for(tv.last(), name));
            }
        }
        if td.len() == 1 {
            assert(count_dup_var(td, name) == if is_dup_var_for(td[0], name) {
                1int
            } else {
                0int
            }) by {
                reveal_with_fuel(count_dup_var, 2);
                assert(td.drop_last() =~= Seq::<TypeCheckerErrorV>::empty());
                assert(count_dup_var(td.drop_last(), name) == 0);
                assert(td.last() == td[0]);
            }
        }
        if params[n - 1].name == name {
            assert(count_named(params, name, n - 1) == count_named(
                params,
                params[n - 1].name,
                n - 1,
            ));
        }
    }
}

/// The parameter diagnostics hold nothing but duplicate-variable and
/// invalid-type reports.
proof fn lemma_param_diags_only_param_kinds(params: Seq<ParameterV>, n: int)
    ensures
        forall|k: int|
            0 <= k < param_diags(params, n).len() ==> (#[trigger] param_diags(params, n)[k]
                is DuplicateVariable || param_diags(params, n)[k] is InvalidType),
    decreases n,
{
    if n > 0 {
        lemma_param_diags_only_param_kinds(params, n - 1);
        assert forall|k: int| 0 <= k < param_diags(params, n).len() implies (#[trigger] param_diags(
            params,
            n,
        )[k] is DuplicateVariable || param_diags(params, n)[k] is InvalidType) by {
            if k < param_diags(params, n - 1).len() {
                assert(param_diags(params, n)[k] == param_diags(params, n - 1)[k]);
            }
        }
    }
}

/// Law: every repetition of a parameter name is reported exactly once. A
/// function visit emits, for each name, one duplicate-variable diagnostic
/// fewer than the name has occurrences among the parameters; in particular a
/// name repeated across exactly two parameters is reported exactly once, and
/// an unrepeated name not at all.
pub proof fn lemma_duplicate_parameters_reported(f: FunctionV, name: Seq<char>)
    ensures
        count_dup_var(function_diags(f), name) == if count_named(
            f.parameters,
            name,
            f.parameters.len() as int,
        ) >= 1 {
            count_named(f.parameters, name, f.parameters.len() as int) - 1
        } else {
            0int
        },
{
    let n = f.parameters.len() as int;
    lemma_param_diags_count(f.parameters, name, n);
    let tail: Seq<TypeCheckerErrorV> = if !f.block.has_return {
        seq![TypeCheckerErrorV::FunctionHasNoReturn { name: f.name, span: f.span }]
    } else {
        Seq::empty()
    };
    lemma_count_dup_var_append(param_diags(f.parameters, n), tail, name);
    if tail.len() == 1 {
        assert(count_dup_var(tail, name) == 0) by {
            reveal_with_fuel(count_dup_var, 2);
            assert(tail.drop_last() =~= Seq::<TypeCheckerErrorV>::empty());
            assert(count_dup_var(tail.drop_last(), name) == 0);
            assert(!is_dup_var_for(tail.last(), name));
        }
    }
}

/// Law: analysis of a function always proceeds to the return requirement,
/// whatever the parameters reported. A function whose body has no reachable
/// return statement yields exactly one missing-return diagnostic, and a
/// function with one yields none.
pub proof fn lemma_missing_return_reported_once(f: FunctionV)
    ensures
        count_no_return(function_diags(f)) == if f.block.has_return {
            0int
        } else {
            1int
        },
        !f.block.has_return ==> function_diags(f).contains(
            TypeCheckerErrorV::FunctionHasNoReturn { name: f.name, span: f.span },
        ),
{
    let n = f.parameters.len() as int;
    let pd = param_diags(f.parameters, n);
    lemma_param_diags_only_param_kinds(f.parameters, n);
    assert(count_no_return(pd) == 0) by {
        lemma_count_no_return_only_param_kinds(pd);
    }
    let tail: Seq<TypeCheckerErrorV> = if !f.block.has_return {
        seq![TypeCheckerErrorV::FunctionHasNoReturn { name: f.name, span: f.span }]
    } else {
        Seq::empty()
    };
    lemma_count_no_return_append(pd, tail);
    if tail.len() == 1 {
        assert(count_no_return(tail) == 1) by {
            reveal_with_fuel(count_no_return, 2);
            assert(tail.drop_last() =~= Seq::<TypeCheckerErrorV>::empty());
            assert(count_no_return(tail.drop_last()) == 0);
            assert(tail.last() is FunctionHasNoReturn);
        }
        assert(function_diags(f)[pd.len() as int] == TypeCheckerErrorV::FunctionHasNoReturn {
            name: f.name,
            span: f.span,
        });
    }
}

/// A sequence of duplicate-variable and invalid-type diagnostics holds no
/// missing-return report.
proof fn lemma_count_no_return_only_param_kinds(diags: Seq<TypeCheckerErrorV>)
    requires
        forall|k: int|
            0 <= k < diags.len() ==> (#[trigger] diags[k] is DuplicateVariable || diags[k]
                is InvalidType),
    ensures
        count_no_return(diags) == 0,
    decreases diags,
{
    if diags.len() > 0 {
        assert(diags[diags.len() - 1] is DuplicateVariable || diags[diags.len() - 1]
            is InvalidType);
        lemma_count_no_return_only_param_kinds(diags.drop_last());
    }
}

} // verus!

verus! {

/// A found member carries the searched name.
proof fn lemma_find_member_names(members: Seq<CircuitMemberV>, name: Seq<char>)
    ensures
        find_member(members, name) matches Some(m) ==> m.name == name,
    decreases members,
{
    if members.len() > 0 && members[0].name != name {
        lemma_find_member_names(members.drop_first(), name);
    }
}

/// Law: a member-name collision is reported once for the whole declaration,
/// worded as a duplicate record variable on records and as a duplicate
/// circuit member on plain circuits; the other wording never appears for the
/// same declaration.
pub proof fn lemma_duplicate_member_wording(c: CircuitV)
    requires
        has_dup_member(c.members),
    ensures
        circuit_diags(c)[0] == dup_member_diag(c),
        c.is_record ==> forall|k: int|
            0 <= k < circuit_diags(c).len() ==> !(#[trigger] circuit_diags(c)[k]
                is DuplicateCircuitMember),
        !c.is_record ==> circuit_diags(c) =~= seq![
            TypeCheckerErrorV::DuplicateCircuitMember { name: c.name, span: c.span },
        ],
{
    let dups = seq![dup_member_diag(c)];
    if c.is_record {
        let r1 = record_field_diags(c, "owner"@, TypeV::Address);
        let r2 = record_field_diags(c, "balance"@, TypeV::Integer(IntegerType::U64));
        assert(circuit_diags(c) == dups + (r1 + r2));
        assert forall|k: int| 0 <= k < circuit_diags(c).len() implies !(
        #[trigger] circuit_diags(c)[k] is DuplicateCircuitMember) by {
            if k > 0 {
                let e = (r1 + r2)[k - 1];
                assert(circuit_diags(c)[k] == e);
                if k - 1 < r1.len() {
                    assert(e == r1[k - 1]);
                } else {
                    assert(e == r2[k - 1 - r1.len()]);
                }
            }
        }
    } else {
        assert(circuit_diags(c) =~= dups);
    }
}

/// Law: for one mandatory record field, the missing-field and the wrong-type
/// diagnostics are mutually exclusive. A declaration without the member
/// yields exactly the required-record-variable diagnostic naming the field
/// and its expected type; one with the member present but of a type that is
/// not flat-equal to the expected one yields exactly the wrong-type
/// diagnostic naming the same field; one with the member of the expected
/// type yields nothing.
pub proof fn lemma_record_field_exclusive(c: CircuitV, field: Seq<char>, expected: TypeV)
    ensures
        find_member(c.members, field) is None ==> record_field_diags(c, field, expected) =~= seq![
            TypeCheckerErrorV::RequiredRecordVariable { field, expected, span: c.span },
        ],
        (find_member(c.members, field) matches Some(m) && !spec_eq_flat(expected, m.type_))
            ==> record_field_diags(c, field, expected) =~= seq![
            TypeCheckerErrorV::RecordVarWrongType { field, expected, span: c.span },
        ],
        (find_member(c.members, field) matches Some(m) && spec_eq_flat(expected, m.type_))
            ==> record_field_diags(c, field, expected) =~= Seq::<TypeCheckerErrorV>::empty(),
{
    lemma_find_member_names(c.members, field);
}

/// Law: every diagnostic of the two mandatory-field checks of a record is
/// reported by a circuit visit, independently of the collision check.
pub proof fn lemma_record_checks_reported(c: CircuitV)
    requires
        c.is_record,
    ensures
        forall|k: int|
            0 <= k < record_field_diags(c, "owner"@, TypeV::Address).len() ==> circuit_diags(
                c,
            ).contains(#[trigger] record_field_diags(c, "owner"@, TypeV::Address)[k]),
        forall|k: int|
            0 <= k < record_field_diags(c, "balance"@, TypeV::Integer(IntegerType::U64)).len()
                ==> circuit_diags(c).contains(
                #[trigger] record_field_diags(c, "balance"@, TypeV::Integer(IntegerType::U64))[k],
            ),
{
    let dups: Seq<TypeCheckerErrorV> = if has_dup_member(c.members) {
        seq![dup_member_diag(c)]
    } else {
        Seq::empty()
    };
    let r1 = record_field_diags(c, "owner"@, TypeV::Address);
    let r2 = record_field_diags(c, "balance"@, TypeV::Integer(IntegerType::U64));
    assert(circuit_diags(c) == dups + (r1 + r2));
    assert forall|k: int| 0 <= k < r1.len() implies circuit_diags(c).contains(
        #[trigger] r1[k],
    ) by {
        assert(circuit_diags(c)[dups.len() + k] == r1[k]);
    }
    assert forall|k: int| 0 <= k < r2.len() implies circuit_diags(c).contains(
        #[trigger] r2[k],
    ) by {
        assert(circuit_diags(c)[dups.len() + r1.len() + k] == r2[k]);
    }
}

} // verus!
