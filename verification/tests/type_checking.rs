use leo_semantics::ast::{Block, Circuit, CircuitMember, Function, IntegerType, Mode, Parameter, Span, Type};
use leo_semantics::diagnostics::TypeCheckerError;
use leo_semantics::type_checker::TypeChecker;

fn sp(n: u64) -> Span {
    Span { lo: n, hi: n + 1 }
}

fn param(name: &str, ty: Type, n: u64) -> Parameter {
    Parameter {
        name: name.to_string(),
        mode: Mode::Private,
        type_: ty,
        type_is_valid: true,
        span: sp(n),
    }
}

fn func(name: &str, params: Vec<Parameter>, has_return: bool) -> Function {
    Function {
        name: name.to_string(),
        span: sp(0),
        parameters: params,
        block: Block { has_return },
    }
}

fn member(name: &str, ty: Type, n: u64) -> CircuitMember {
    CircuitMember { name: name.to_string(), type_: ty, span: sp(n) }
}

fn record(name: &str, members: Vec<CircuitMember>) -> Circuit {
    Circuit { name: name.to_string(), span: sp(0), is_record: true, members }
}

fn circuit(name: &str, members: Vec<CircuitMember>) -> Circuit {
    Circuit { name: name.to_string(), span: sp(0), is_record: false, members }
}

#[test]
fn duplicate_parameter_reported_once() {
    let mut tc = TypeChecker::new();
    let f = func(
        "main",
        vec![
            param("a", Type::Integer(IntegerType::U32), 1),
            param("a", Type::Integer(IntegerType::U32), 2),
            param("b", Type::Boolean, 3),
        ],
        true,
    );
    tc.visit_function(&f);
    assert_eq!(tc.handler.diags.len(), 1);
    match &tc.handler.diags[0] {
        TypeCheckerError::DuplicateVariable { name, span } => {
            assert_eq!(name, "a");
            assert_eq!(span.lo, 2);
        }
        _ => panic!("expected a duplicate-variable diagnostic"),
    }
}

#[test]
fn triple_parameter_reported_per_repetition() {
    // a name occurring three times collides twice: once per repetition
    let mut tc = TypeChecker::new();
    let f = func(
        "main",
        vec![
            param("a", Type::Field, 1),
            param("a", Type::Field, 2),
            param("a", Type::Field, 3),
        ],
        true,
    );
    tc.visit_function(&f);
    assert_eq!(tc.handler.diags.len(), 2);
    for d in &tc.handler.diags {
        assert!(matches!(d, TypeCheckerError::DuplicateVariable { .. }));
    }
}

#[test]
fn duplicate_parameter_keeps_first_binding_and_checks_return() {
    let mut tc = TypeChecker::new();
    let f = func(
        "main",
        vec![param("a", Type::Boolean, 1), param("a", Type::Field, 2)],
        false,
    );
    tc.visit_function(&f);
    // analysis proceeded to the return requirement
    assert_eq!(tc.handler.diags.len(), 2);
    assert!(matches!(tc.handler.diags[0], TypeCheckerError::DuplicateVariable { .. }));
    match &tc.handler.diags[1] {
        TypeCheckerError::FunctionHasNoReturn { name, .. } => assert_eq!(name, "main"),
        _ => panic!("expected a missing-return diagnostic"),
    }
    // the table retains the entry present at the failed insert
    assert!(tc.symbol_table.contains(&"a".to_string()));
    assert_eq!(tc.parent, Some("main".to_string()));
}

#[test]
fn rejected_type_reference_is_reported_and_analysis_proceeds() {
    // the external type-validity check rejected the parameter's declared
    // type; the diagnostic is reported and the return check still runs
    let mut tc = TypeChecker::new();
    let mut p = param("x", Type::Composite("Missing".to_string()), 1);
    p.type_is_valid = false;
    let f = func("main", vec![p], false);
    tc.visit_function(&f);
    assert_eq!(tc.handler.diags.len(), 2);
    match &tc.handler.diags[0] {
        TypeCheckerError::InvalidType { span } => assert_eq!(span.lo, 1),
        _ => panic!("expected an invalid-type diagnostic"),
    }
    assert!(matches!(tc.handler.diags[1], TypeCheckerError::FunctionHasNoReturn { .. }));
    // the parameter was still bound
    assert!(tc.symbol_table.contains(&"x".to_string()));
}

#[test]
fn function_with_return_yields_no_diagnostic() {
    let mut tc = TypeChecker::new();
    let f = func("ok", vec![param("x", Type::Address, 1)], true);
    tc.visit_function(&f);
    assert_eq!(tc.handler.diags.len(), 0);
    assert!(tc.has_return);
}

#[test]
fn function_without_return_yields_exactly_one_diagnostic() {
    let mut tc = TypeChecker::new();
    let f = func("silent", vec![], false);
    tc.visit_function(&f);
    assert_eq!(tc.handler.diags.len(), 1);
    assert!(matches!(
        tc.handler.diags[0],
        TypeCheckerError::FunctionHasNoReturn { .. }
    ));
}

#[test]
fn duplicate_member_wording_depends_on_record_flag() {
    let mut tc = TypeChecker::new();
    let c = circuit(
        "point",
        vec![member("x", Type::Field, 1), member("x", Type::Field, 2)],
    );
    tc.visit_circuit(&c);
    assert_eq!(tc.handler.diags.len(), 1);
    match &tc.handler.diags[0] {
        TypeCheckerError::DuplicateCircuitMember { name, .. } => assert_eq!(name, "point"),
        _ => panic!("expected a duplicate-circuit-member diagnostic"),
    }

    let mut tc2 = TypeChecker::new();
    let r = record(
        "token",
        vec![
            member("owner", Type::Address, 1),
            member("balance", Type::Integer(IntegerType::U64), 2),
            member("amount", Type::Field, 3),
            member("amount", Type::Field, 4),
        ],
    );
    tc2.visit_circuit(&r);
    assert_eq!(tc2.handler.diags.len(), 1);
    match &tc2.handler.diags[0] {
        TypeCheckerError::DuplicateRecordVariable { name, .. } => assert_eq!(name, "token"),
        _ => panic!("expected a duplicate-record-variable diagnostic"),
    }
}

#[test]
fn record_missing_owner_is_required_record_variable() {
    let mut tc = TypeChecker::new();
    let r = record(
        "token",
        vec![member("balance", Type::Integer(IntegerType::U64), 1)],
    );
    tc.visit_circuit(&r);
    assert_eq!(tc.handler.diags.len(), 1);
    match &tc.handler.diags[0] {
        TypeCheckerError::RequiredRecordVariable { field, expected, .. } => {
            assert_eq!(field, "owner");
            assert!(matches!(expected, Type::Address));
        }
        _ => panic!("expected a required-record-variable diagnostic"),
    }
}

#[test]
fn record_with_wrong_typed_owner_is_wrong_type_not_required() {
    let mut tc = TypeChecker::new();
    let r = record(
        "token",
        vec![
            member("owner", Type::StringType, 1),
            member("balance", Type::Integer(IntegerType::U64), 2),
        ],
    );
    tc.visit_circuit(&r);
    assert_eq!(tc.handler.diags.len(), 1);
    match &tc.handler.diags[0] {
        TypeCheckerError::RecordVarWrongType { field, expected, .. } => {
            assert_eq!(field, "owner");
            assert!(matches!(expected, Type::Address));
        }
        _ => panic!("expected a wrong-type diagnostic, not a missing-field one"),
    }
}

#[test]
fn record_with_wrong_typed_balance() {
    let mut tc = TypeChecker::new();
    let r = record(
        "token",
        vec![
            member("owner", Type::Address, 1),
            member("balance", Type::Integer(IntegerType::U32), 2),
        ],
    );
    tc.visit_circuit(&r);
    assert_eq!(tc.handler.diags.len(), 1);
    match &tc.handler.diags[0] {
        TypeCheckerError::RecordVarWrongType { field, expected, .. } => {
            assert_eq!(field, "balance");
            assert!(matches!(expected, Type::Integer(IntegerType::U64)));
        }
        _ => panic!("expected a wrong-type diagnostic for balance"),
    }
}

#[test]
fn well_formed_record_yields_no_diagnostics() {
    let mut tc = TypeChecker::new();
    let r = record(
        "token",
        vec![
            member("owner", Type::Address, 1),
            member("balance", Type::Integer(IntegerType::U64), 2),
            member("amount", Type::Field, 3),
        ],
    );
    tc.visit_circuit(&r);
    assert_eq!(tc.handler.err_count(), 0);
}

#[test]
fn record_collision_and_field_checks_are_independent() {
    // a collision and a missing mandatory field both fire for one declaration
    let mut tc = TypeChecker::new();
    let r = record(
        "token",
        vec![member("x", Type::Field, 1), member("x", Type::Field, 2)],
    );
    tc.visit_circuit(&r);
    assert_eq!(tc.handler.diags.len(), 3);
    assert!(matches!(tc.handler.diags[0], TypeCheckerError::DuplicateRecordVariable { .. }));
    assert!(matches!(tc.handler.diags[1], TypeCheckerError::RequiredRecordVariable { .. }));
    assert!(matches!(tc.handler.diags[2], TypeCheckerError::RequiredRecordVariable { .. }));
}

#[test]
fn eq_flat_compares_constructors() {
    assert!(Type::Address.eq_flat(&Type::Address));
    assert!(!Type::Address.eq_flat(&Type::StringType));
    assert!(Type::Integer(IntegerType::U64).eq_flat(&Type::Integer(IntegerType::U64)));
    assert!(!Type::Integer(IntegerType::U64).eq_flat(&Type::Integer(IntegerType::U32)));
    assert!(Type::Composite("a".to_string()).eq_flat(&Type::Composite("a".to_string())));
    assert!(!Type::Composite("a".to_string()).eq_flat(&Type::Composite("b".to_string())));
}
