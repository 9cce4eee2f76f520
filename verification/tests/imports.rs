use leo_semantics::ast::{
    Block, Circuit, Function, Import, ImportSymbol, Package, PackageAccess, Program, Span,
};
use leo_semantics::resolver::{matches_package_name, ConstrainedProgram};
use leo_semantics::source_tree::{
    parse_import_file, EntryKind, ImportError, ParseOutcome, SourceDir, SourceEntry,
};
use leo_semantics::store::{new_scope, ConstrainedValue};

fn sp(n: u64) -> Span {
    Span { lo: n, hi: n + 1 }
}

fn circuit(name: &str) -> Circuit {
    Circuit { name: name.to_string(), span: sp(0), is_record: false, members: vec![] }
}

fn function(name: &str) -> Function {
    Function {
        name: name.to_string(),
        span: sp(0),
        parameters: vec![],
        block: Block { has_return: true },
    }
}

fn program(name: &str, circuits: Vec<Circuit>, functions: Vec<Function>, imports: Vec<Import>) -> Program {
    Program { name: name.to_string(), circuits, functions, imports }
}

fn file_entry(name: &str, p: Program) -> SourceEntry {
    SourceEntry {
        name: name.to_string(),
        name_convertible: true,
        kind: EntryKind::File(ParseOutcome::Parsed(p)),
    }
}

fn dir_entry(name: &str, entries: Vec<SourceEntry>) -> SourceEntry {
    SourceEntry {
        name: name.to_string(),
        name_convertible: true,
        kind: EntryKind::Directory(SourceDir { entries }),
    }
}

/// A package root whose `src/` holds the given entries.
fn root_with_src(entries: Vec<SourceEntry>) -> SourceDir {
    SourceDir { entries: vec![dir_entry("src", entries)] }
}

fn symbol_import(pkg: &str, sym: &str, alias: Option<&str>) -> Import {
    Import {
        package: Package {
            name: pkg.to_string(),
            span: sp(9),
            access: PackageAccess::Symbol(ImportSymbol {
                symbol: sym.to_string(),
                alias: alias.map(|a| a.to_string()),
                span: sp(10),
            }),
        },
        span: sp(8),
    }
}

fn star_import(pkg: &str) -> Import {
    Import {
        package: Package {
            name: pkg.to_string(),
            span: sp(9),
            access: PackageAccess::Star(sp(10)),
        },
        span: sp(8),
    }
}

#[test]
fn unknown_package_when_file_is_absent() {
    let root = root_with_src(vec![file_entry("other.leo", program("other.leo", vec![], vec![], vec![]))]);
    let mut cp = ConstrainedProgram::new();
    let r = cp.enforce_import(&root, &"main".to_string(), &star_import("foo"));
    match r {
        Err(ImportError::UnknownPackage(name, _)) => assert_eq!(name, "foo"),
        _ => panic!("expected an unknown-package failure naming foo"),
    }
}

#[test]
fn directory_error_when_src_is_missing() {
    let root = SourceDir { entries: vec![] };
    let mut cp = ConstrainedProgram::new();
    let r = cp.enforce_import(&root, &"main".to_string(), &star_import("foo"));
    assert!(matches!(r, Err(ImportError::DirectoryError(_))));
}

#[test]
fn unknown_symbol_when_program_lacks_it() {
    let foo = program("foo.leo", vec![circuit("baz")], vec![function("qux")], vec![]);
    let root = root_with_src(vec![file_entry("foo.leo", foo)]);
    let mut cp = ConstrainedProgram::new();
    let r = cp.enforce_import(&root, &"foo".to_string(), &symbol_import("foo", "bar", None));
    match r {
        Err(ImportError::UnknownSymbol { symbol, program, file, .. }) => {
            assert_eq!(symbol, "bar");
            assert_eq!(program, "foo");
            assert_eq!(file, "foo.leo");
        }
        _ => panic!("expected an unknown-symbol failure naming bar and foo"),
    }
}

#[test]
fn alias_decides_the_qualified_name() {
    let foo = program("foo.leo", vec![circuit("bar")], vec![], vec![]);
    let root = root_with_src(vec![file_entry("foo.leo", foo)]);
    let mut cp = ConstrainedProgram::new();
    let r = cp.enforce_import(&root, &"foo".to_string(), &symbol_import("foo", "bar", Some("baz")));
    assert!(r.is_ok());
    // installed under the name derived from foo and baz, not bar
    match cp.store.get(&"foo_baz".to_string()) {
        Some(ConstrainedValue::CircuitDefinition(c)) => assert_eq!(c.name, "bar"),
        _ => panic!("expected the circuit under foo_baz"),
    }
    assert!(cp.store.get(&"foo_bar".to_string()).is_none());
}

#[test]
fn omitted_alias_uses_the_symbol_name() {
    let foo = program("foo.leo", vec![circuit("bar")], vec![], vec![]);
    let root = root_with_src(vec![file_entry("foo.leo", foo)]);
    let mut cp = ConstrainedProgram::new();
    let r = cp.enforce_import(&root, &"foo".to_string(), &symbol_import("foo", "bar", None));
    assert!(r.is_ok());
    assert!(matches!(
        cp.store.get(&"foo_bar".to_string()),
        Some(ConstrainedValue::CircuitDefinition(_))
    ));
}

#[test]
fn functions_are_found_after_circuits() {
    let foo = program("foo.leo", vec![circuit("c")], vec![function("f")], vec![]);
    let root = root_with_src(vec![file_entry("foo.leo", foo)]);
    let mut cp = ConstrainedProgram::new();
    let r = cp.enforce_import(&root, &"foo".to_string(), &symbol_import("foo", "f", None));
    assert!(r.is_ok());
    match cp.store.get(&"foo_f".to_string()) {
        Some(ConstrainedValue::FunctionDefinition(f)) => assert_eq!(f.name, "f"),
        _ => panic!("expected the function under foo_f"),
    }
}

#[test]
fn multiple_fails_fast_and_keeps_earlier_effects() {
    let foo = program("foo.leo", vec![circuit("a")], vec![], vec![]);
    let root = root_with_src(vec![file_entry("foo.leo", foo)]);
    let import = Import {
        package: Package {
            name: "foo".to_string(),
            span: sp(9),
            access: PackageAccess::Multiple(vec![
                PackageAccess::Symbol(ImportSymbol {
                    symbol: "a".to_string(),
                    alias: None,
                    span: sp(10),
                }),
                PackageAccess::Symbol(ImportSymbol {
                    symbol: "b".to_string(),
                    alias: None,
                    span: sp(11),
                }),
            ]),
        },
        span: sp(8),
    };
    let mut cp = ConstrainedProgram::new();
    let r = cp.enforce_import(&root, &"foo".to_string(), &import);
    // the whole import reports failure because b failed after a succeeded
    match r {
        Err(ImportError::UnknownSymbol { symbol, .. }) => assert_eq!(symbol, "b"),
        _ => panic!("expected the failure of the second access to surface"),
    }
    // the effect of the first access is not rolled back
    assert!(cp.store.get(&"foo_a".to_string()).is_some());
}

#[test]
fn star_installs_everything_unqualified() {
    let foo = program("foo.leo", vec![circuit("c1"), circuit("c2")], vec![function("f1")], vec![]);
    let root = root_with_src(vec![file_entry("foo.leo", foo)]);
    let mut cp = ConstrainedProgram::new();
    let r = cp.enforce_import(&root, &"main".to_string(), &star_import("foo"));
    assert!(r.is_ok());
    assert!(matches!(cp.store.get(&"c1".to_string()), Some(ConstrainedValue::CircuitDefinition(_))));
    assert!(matches!(cp.store.get(&"c2".to_string()), Some(ConstrainedValue::CircuitDefinition(_))));
    assert!(matches!(cp.store.get(&"f1".to_string()), Some(ConstrainedValue::FunctionDefinition(_))));
}

#[test]
fn transitive_imports_resolve() {
    // foo.leo imports bar.b; importing foo.a also installs bar's b
    let bar = program("bar.leo", vec![circuit("b")], vec![], vec![]);
    let foo = program(
        "foo.leo",
        vec![circuit("a")],
        vec![],
        vec![symbol_import("bar", "b", None)],
    );
    let root = root_with_src(vec![file_entry("foo.leo", foo), file_entry("bar.leo", bar)]);
    let mut cp = ConstrainedProgram::new();
    let r = cp.enforce_import(&root, &"foo".to_string(), &symbol_import("foo", "a", None));
    assert!(r.is_ok());
    assert!(cp.store.get(&"foo_a".to_string()).is_some());
    assert!(cp.store.get(&"foo_b".to_string()).is_some());
}

#[test]
fn cyclic_import_is_detected() {
    // foo.leo imports its own symbol transitively: the cycle guard reports it
    let foo = program(
        "foo.leo",
        vec![circuit("a")],
        vec![],
        vec![symbol_import("foo", "a", None)],
    );
    let root = root_with_src(vec![file_entry("foo.leo", foo)]);
    let mut cp = ConstrainedProgram::new();
    let r = cp.enforce_import(&root, &"foo".to_string(), &symbol_import("foo", "a", None));
    match r {
        Err(ImportError::CyclicImport(name, _)) => assert_eq!(name, "foo.leo"),
        _ => panic!("expected the cycle guard to fire"),
    }
    // the symbol itself was installed before the guard fired
    assert!(cp.store.get(&"foo_a".to_string()).is_some());
}

#[test]
fn subpackage_reenters_at_the_matched_entry() {
    let inner = program("inner.leo", vec![circuit("c")], vec![], vec![]);
    let sub = dir_entry("sub", vec![dir_entry("src", vec![file_entry("inner.leo", inner)])]);
    let root = root_with_src(vec![sub]);
    let import = Import {
        package: Package {
            name: "sub".to_string(),
            span: sp(9),
            access: PackageAccess::SubPackage(Box::new(Package {
                name: "inner".to_string(),
                span: sp(10),
                access: PackageAccess::Symbol(ImportSymbol {
                    symbol: "c".to_string(),
                    alias: None,
                    span: sp(11),
                }),
            })),
        },
        span: sp(8),
    };
    let mut cp = ConstrainedProgram::new();
    let r = cp.enforce_import(&root, &"main".to_string(), &import);
    assert!(r.is_ok());
    assert!(cp.store.get(&"main_c".to_string()).is_some());
}

#[test]
fn loader_rejects_directories_and_unknown_kinds() {
    let d = dir_entry("pkg", vec![]);
    match parse_import_file(&d, &sp(1)) {
        Err(ImportError::ExpectedFile(name, _)) => assert_eq!(name, "pkg"),
        _ => panic!("expected an expected-file failure"),
    }

    let u = SourceEntry {
        name: "odd".to_string(),
        name_convertible: true,
        kind: EntryKind::Unknown,
    };
    assert!(matches!(parse_import_file(&u, &sp(1)), Err(ImportError::DirectoryError(_))));

    let n = SourceEntry {
        name: "lossy".to_string(),
        name_convertible: false,
        kind: EntryKind::File(ParseOutcome::Malformed("ignored".to_string())),
    };
    assert!(matches!(parse_import_file(&n, &sp(1)), Err(ImportError::ConvertOsString(_))));

    let m = SourceEntry {
        name: "bad.leo".to_string(),
        name_convertible: true,
        kind: EntryKind::File(ParseOutcome::Malformed("unexpected token".to_string())),
    };
    match parse_import_file(&m, &sp(1)) {
        Err(ImportError::ParseError(msg, _)) => assert_eq!(msg, "unexpected token"),
        _ => panic!("expected a parse failure"),
    }

    let ok = file_entry("good.leo", program("good.leo", vec![], vec![], vec![]));
    match parse_import_file(&ok, &sp(1)) {
        Ok(name) => assert_eq!(name, "good.leo"),
        Err(_) => panic!("expected the file to load"),
    }
}

#[test]
fn parse_errors_propagate_through_imports() {
    let bad = SourceEntry {
        name: "foo.leo".to_string(),
        name_convertible: true,
        kind: EntryKind::File(ParseOutcome::Malformed("unbalanced brace".to_string())),
    };
    let root = root_with_src(vec![bad]);
    let mut cp = ConstrainedProgram::new();
    let r = cp.enforce_import(&root, &"main".to_string(), &star_import("foo"));
    assert!(matches!(r, Err(ImportError::ParseError(_, _))));
}

#[test]
fn scope_join_rule() {
    assert_eq!(new_scope(&"foo".to_string(), &"baz".to_string()), "foo_baz");
    assert_eq!(new_scope(&"a".to_string(), &"b".to_string()), "a_b");
}

#[test]
fn package_name_matching_strips_the_suffix_once() {
    assert!(matches_package_name(&"foo.leo".to_string(), &"foo".to_string()));
    assert!(matches_package_name(&"foo".to_string(), &"foo".to_string()));
    assert!(!matches_package_name(&"foo.leo".to_string(), &"foo.leo".to_string()));
    assert!(!matches_package_name(&"xfoo.leo".to_string(), &"foo".to_string()));
    assert!(!matches_package_name(&"bar.leo".to_string(), &"foo".to_string()));
}

#[test]
fn star_on_a_directory_entry_expects_a_file() {
    // a directory matching the package name cannot be star-imported
    let sub = dir_entry("pkg", vec![]);
    let root = root_with_src(vec![sub]);
    let mut cp = ConstrainedProgram::new();
    let r = cp.enforce_import(&root, &"main".to_string(), &star_import("pkg"));
    match r {
        Err(ImportError::ExpectedFile(name, _)) => assert_eq!(name, "pkg"),
        _ => panic!("expected an expected-file failure"),
    }
}

#[test]
fn circuits_shadow_functions_of_the_same_name() {
    let foo = program("foo.leo", vec![circuit("x")], vec![function("x")], vec![]);
    let root = root_with_src(vec![file_entry("foo.leo", foo)]);
    let mut cp = ConstrainedProgram::new();
    let r = cp.enforce_import(&root, &"foo".to_string(), &symbol_import("foo", "x", None));
    assert!(r.is_ok());
    assert!(matches!(
        cp.store.get(&"foo_x".to_string()),
        Some(ConstrainedValue::CircuitDefinition(_))
    ));
}

#[test]
fn star_resolves_the_merged_files_imports() {
    // foo.leo star-merges and brings bar.b in transitively
    let bar = program("bar.leo", vec![circuit("b")], vec![], vec![]);
    let foo = program(
        "foo.leo",
        vec![circuit("a")],
        vec![],
        vec![symbol_import("bar", "b", None)],
    );
    let root = root_with_src(vec![file_entry("foo.leo", foo), file_entry("bar.leo", bar)]);
    let mut cp = ConstrainedProgram::new();
    let r = cp.enforce_import(&root, &"main".to_string(), &star_import("foo"));
    assert!(r.is_ok());
    // foo's own declarations land unqualified; the transitive symbol lands
    // under the importing scope
    assert!(cp.store.get(&"a".to_string()).is_some());
    assert!(cp.store.get(&"main_b".to_string()).is_some());
}

#[test]
fn later_definition_wins_in_the_store() {
    // two star imports in order: the later definition of a shared name wins
    let one = program("one.leo", vec![circuit("c")], vec![], vec![]);
    let two = program("two.leo", vec![], vec![function("c")], vec![]);
    let root = root_with_src(vec![file_entry("one.leo", one), file_entry("two.leo", two)]);
    let mut cp = ConstrainedProgram::new();
    assert!(cp.enforce_import(&root, &"main".to_string(), &star_import("one")).is_ok());
    assert!(matches!(cp.store.get(&"c".to_string()), Some(ConstrainedValue::CircuitDefinition(_))));
    assert!(cp.enforce_import(&root, &"main".to_string(), &star_import("two")).is_ok());
    assert!(matches!(cp.store.get(&"c".to_string()), Some(ConstrainedValue::FunctionDefinition(_))));
}
