//! The import resolver: a state machine over the package-access variants,
//! scoped by a caller-supplied importing-scope name. `Star` merges a whole
//! loaded program into the store unqualified; `Symbol` installs one found
//! circuit or function under a qualified name and then resolves the loaded
//! file's own imports transitively; `SubPackage` re-enters whole-package
//! resolution rooted at the matched entry; `Multiple` applies a list in
//! order, aborting on the first failure without rolling back earlier
//! effects. Resolution is fail-fast: the first failure anywhere propagates
//! as a typed error. A set of source-file names on the active call path
//! guards against cyclic imports, and doubles as the termination measure of
//! the recursion.

use vstd::prelude::*;
use vstd::seq_lib::seq_to_set_is_finite;
use crate::ast::Circuit;
use crate::ast::CircuitV;
use crate::ast::Function;
use crate::ast::FunctionV;
use crate::ast::Import;
use crate::ast::Package;
use crate::ast::PackageAccess;
use crate::ast::AccessV;
use crate::ast::PackageV;
use crate::ast::ImportV;
use crate::ast::ImportSymbolV;
use crate::ast::ImportSymbol;
use crate::ast::Program;
use crate::ast::ProgramV;
use crate::ast::Span;
use crate::ast::import_size;
use crate::ast::imports_view;
use crate::ast::package_size;
use crate::ast::access_size;
use crate::ast::accesses_view;
use crate::ast::access_view;
use crate::ast::lemma_accesses_view;
use crate::ast::lemma_access_size_le;
use crate::source_tree::SourceDir;
use crate::source_tree::SourceDirV;
use crate::source_tree::SourceEntry;
use crate::source_tree::SourceEntryV;
use crate::source_tree::EntryKind;
use crate::source_tree::EntryKindV;
use crate::source_tree::ParseOutcomeV;
use crate::source_tree::ImportError;
use crate::source_tree::ImportErrorV;
use crate::source_tree::dir_names;
use crate::source_tree::entry_names;
use crate::source_tree::load_outcome;
use crate::source_tree::parse_import_file;
use crate::source_tree::loaded_program;
use crate::source_tree::lemma_entries_view;
use crate::source_tree::lemma_entries_names_contain;
use crate::source_tree::lemma_entry_names_head;
use crate::source_tree::lemma_entry_names_dir;
use crate::store::ConstrainedValue;
use crate::store::ConstrainedValueV;
use crate::store::DefinitionStore;
use crate::store::new_scope;
use crate::store::spec_new_scope;

verus! {

broadcast use seq_to_set_is_finite;

/// A file name carries the source-file suffix.
pub open spec fn has_leo_suffix(s: Seq<char>) -> bool {
    s.len() >= 4 && s.subrange(s.len() - 4, s.len() as int) == ".leo"@
}

/// Whether a directory entry's file name, with the fixed source-file suffix
/// stripped, exactly equals a package's name.
pub open spec fn name_matches(file: Seq<char>, package: Seq<char>) -> bool {
    if has_leo_suffix(file) {
        file.subrange(0, file.len() - 4) == package
    } else {
        file == package
    }
}

/// The subdirectory the fixed source-directory segment names: the first
/// entry called `src`, provided it is a directory.
pub open spec fn find_src(entries: Seq<SourceEntryV>) -> Option<SourceDirV>
    decreases entries,
{
    if entries.len() == 0 {
        None
    } else if entries[0].name == "src"@ {
        match entries[0].kind {
            EntryKindV::Directory(d) => Some(d),
            _ => None,
        }
    } else {
        find_src(entries.drop_first())
    }
}

/// The first entry whose file name matches the package name.
pub open spec fn find_package_entry(entries: Seq<SourceEntryV>, package: Seq<char>) -> Option<
    SourceEntryV,
>
    decreases entries,
{
    if entries.len() == 0 {
        None
    } else if name_matches(entries[0].name, package) {
        Some(entries[0])
    } else {
        find_package_entry(entries.drop_first(), package)
    }
}

/// The first circuit of the program carrying the name.
pub open spec fn find_circuit(circuits: Seq<CircuitV>, name: Seq<char>) -> Option<CircuitV>
    decreases circuits,
{
    if circuits.len() == 0 {
        None
    } else if circuits[0].name == name {
        Some(circuits[0])
    } else {
        find_circuit(circuits.drop_first(), name)
    }
}

/// The first function of the program carrying the name.
pub open spec fn find_function(functions: Seq<FunctionV>, name: Seq<char>) -> Option<FunctionV>
    decreases functions,
{
    if functions.len() == 0 {
        None
    } else if functions[0].name == name {
        Some(functions[0])
    } else {
        find_function(functions.drop_first(), name)
    }
}

/// The definition a symbol import installs: the program's circuits are
/// searched first, then its functions.
pub open spec fn matched_value(p: ProgramV, symbol: Seq<char>) -> Option<ConstrainedValueV> {
    match find_circuit(p.circuits, symbol) {
        Some(c) => Some(ConstrainedValueV::CircuitDefinition(c)),
        None => match find_function(p.functions, symbol) {
            Some(f) => Some(ConstrainedValueV::FunctionDefinition(f)),
            None => None,
        },
    }
}

/// The local name a symbol import installs: the alias when given, else the
/// original symbol name.
pub open spec fn effective_name(s: ImportSymbolV) -> Seq<char> {
    match s.alias {
        Some(a) => a,
        None => s.symbol,
    }
}

/// The store after a whole program's circuits, then functions, are merged in
/// unqualified, each under its own name.
pub open spec fn merge_circuits(
    m: Map<Seq<char>, ConstrainedValueV>,
    circuits: Seq<CircuitV>,
    n: int,
) -> Map<Seq<char>, ConstrainedValueV>
    decreases n,
{
    if n <= 0 {
        m
    } else {
        merge_circuits(m, circuits, n - 1).insert(
            circuits[n - 1].name,
            ConstrainedValueV::CircuitDefinition(circuits[n - 1]),
        )
    }
}

/// The store after a program's functions are merged in unqualified.
pub open spec fn merge_functions(
    m: Map<Seq<char>, ConstrainedValueV>,
    functions: Seq<FunctionV>,
    n: int,
) -> Map<Seq<char>, ConstrainedValueV>
    decreases n,
{
    if n <= 0 {
        m
    } else {
        merge_functions(m, functions, n - 1).insert(
            functions[n - 1].name,
            ConstrainedValueV::FunctionDefinition(functions[n - 1]),
        )
    }
}

/// The store after a whole program is merged in unqualified.
pub open spec fn merge_defs(m: Map<Seq<char>, ConstrainedValueV>, p: ProgramV) -> Map<
    Seq<char>,
    ConstrainedValueV,
> {
    merge_functions(
        merge_circuits(m, p.circuits, p.circuits.len() as int),
        p.functions,
        p.functions.len() as int,
    )
}

/// Merging circuits only adds definitions: the old names stay and every
/// merged circuit's name is present.
pub proof fn lemma_merge_circuits_dom(
    m: Map<Seq<char>, ConstrainedValueV>,
    circuits: Seq<CircuitV>,
    n: int,
)
    ensures
        m.dom() <= merge_circuits(m, circuits, n).dom(),
        forall|i: int|
            0 <= i < n ==> merge_circuits(m, circuits, n).dom().contains(
                #[trigger] circuits[i].name,
            ),
    decreases n,
{
    if n > 0 {
        lemma_merge_circuits_dom(m, circuits, n - 1);
    }
}

/// Merging functions only adds definitions.
pub proof fn lemma_merge_functions_dom(
    m: Map<Seq<char>, ConstrainedValueV>,
    functions: Seq<FunctionV>,
    n: int,
)
    ensures
        m.dom() <= merge_functions(m, functions, n).dom(),
        forall|i: int|
            0 <= i < n ==> merge_functions(m, functions, n).dom().contains(
                #[trigger] functions[i].name,
            ),
    decreases n,
{
    if n > 0 {
        lemma_merge_functions_dom(m, functions, n - 1);
    }
}

/// The names of the source files on the active resolution path.
pub open spec fn visiting_names(v: Seq<String>) -> Seq<Seq<char>> {
    v.map_values(|s: String| s@)
}

/// What importing everything from an entry guarantees, over the store before
/// (`pre`) and after (`post`), the names on the active path before the call
/// (`visited`), and the result: a load failure surfaces unchanged; a loaded
/// program has all of its circuit and function names installed, exactly by
/// the unqualified merge when it declares no imports, and is refused as
/// cyclic when its file is already being resolved.
pub open spec fn star_base(
    pre: Map<Seq<char>, ConstrainedValueV>,
    post: Map<Seq<char>, ConstrainedValueV>,
    visited: Seq<Seq<char>>,
    entry: SourceEntryV,
    span: Span,
    r: Result<(), ImportError>,
) -> bool {
    &&& (load_outcome(entry, span) matches Err(e) ==> (r matches Err(e2) && e2@ == e && post
        == pre))
    &&& (entry.kind matches EntryKindV::File(ParseOutcomeV::Parsed(p)) ==> (load_outcome(
        entry,
        span,
    ) is Ok ==> {
        &&& forall|i: int|
            0 <= i < p.circuits.len() ==> post.dom().contains(#[trigger] p.circuits[i].name)
        &&& forall|i: int|
            0 <= i < p.functions.len() ==> post.dom().contains(#[trigger] p.functions[i].name)
        &&& (visited.contains(entry.name) ==> (r matches Err(e) && e@
            == ImportErrorV::CyclicImport(entry.name, span) && post == merge_defs(pre, p)))
        &&& ((!visited.contains(entry.name) && p.imports.len() == 0) ==> (r is Ok && post
            == merge_defs(pre, p)))
    }))
}

/// What importing one named symbol from an entry guarantees: a load failure
/// surfaces unchanged; a program defining neither a circuit nor a function
/// of the name yields the unknown-symbol error and leaves the store as it
/// was; a found definition is installed under the qualified name joining the
/// scope with the alias or the symbol name, exactly so when the loaded file
/// declares no imports, and the cycle guard refuses a file already being
/// resolved after the symbol was installed.
pub open spec fn symbol_base(
    pre: Map<Seq<char>, ConstrainedValueV>,
    post: Map<Seq<char>, ConstrainedValueV>,
    visited: Seq<Seq<char>>,
    entry: SourceEntryV,
    scope: Seq<char>,
    s: ImportSymbolV,
    r: Result<(), ImportError>,
) -> bool {
    &&& (load_outcome(entry, s.span) matches Err(e) ==> (r matches Err(e2) && e2@ == e && post
        == pre))
    &&& (entry.kind matches EntryKindV::File(ParseOutcomeV::Parsed(p)) ==> (load_outcome(
        entry,
        s.span,
    ) is Ok ==> {
        &&& (matched_value(p, s.symbol) is None ==> (r matches Err(e) && e@ == (
        ImportErrorV::UnknownSymbol {
            symbol: s.symbol,
            program: scope,
            file: entry.name,
            span: s.span,
        }) && post == pre))
        &&& (matched_value(p, s.symbol) matches Some(v) ==> {
            &&& post.dom().contains(spec_new_scope(scope, effective_name(s)))
            &&& (visited.contains(entry.name) ==> (r matches Err(e) && e@
                == ImportErrorV::CyclicImport(entry.name, s.span) && post == pre.insert(
                spec_new_scope(scope, effective_name(s)),
                v,
            )))
            &&& ((!visited.contains(entry.name) && p.imports.len() == 0) ==> (r is Ok && post
                == pre.insert(spec_new_scope(scope, effective_name(s)), v)))
        })
    }))
}

/// What locating a package under a base directory guarantees: without a
/// source subdirectory the lookup is a directory error, and with one but no
/// entry matching the package name it is an unknown-package error, each
/// leaving the store as it was.
pub open spec fn package_lookup_outcome(
    pre: Map<Seq<char>, ConstrainedValueV>,
    post: Map<Seq<char>, ConstrainedValueV>,
    base: SourceDirV,
    name: Seq<char>,
    span: Span,
    r: Result<(), ImportError>,
) -> bool {
    &&& (find_src(base.entries) is None ==> (r matches Err(e) && e@
        == ImportErrorV::DirectoryError(span) && post == pre))
    &&& (find_src(base.entries) matches Some(d) ==> (find_package_entry(d.entries, name)
        is None ==> (r matches Err(e) && e@ == ImportErrorV::UnknownPackage(name, span) && post
        == pre)))
}

/// What dispatching one access against an entry guarantees, variant by
/// variant. A sub-package re-enters package lookup at the entry, which must
/// be a directory; an empty access list succeeds without effect.
/// The base guarantees of dispatching one access against an entry,
/// recursively down the whole access tree: `Star` and `Symbol` keep their
/// base guarantees, a sub-package re-enters package lookup at the entry
/// (which must be a directory) with the nested access dispatched in turn,
/// and a list is applied to a chain of intermediate stores, in order,
/// stopping at the first failure.
pub open spec fn access_dispatch(
    pre: Map<Seq<char>, ConstrainedValueV>,
    post: Map<Seq<char>, ConstrainedValueV>,
    visited: Seq<Seq<char>>,
    entry: SourceEntryV,
    scope: Seq<char>,
    access: AccessV,
    r: Result<(), ImportError>,
) -> bool
    decreases access, 0int,
{
    match access {
        AccessV::Star(span) => star_base(pre, post, visited, entry, span, r),
        AccessV::Symbol(s) => symbol_base(pre, post, visited, entry, scope, s, r),
        AccessV::SubPackage(bp) => {
            &&& (!(entry.kind is Directory) ==> (r matches Err(e) && e@
                == ImportErrorV::DirectoryError(bp.span) && post == pre))
            &&& (entry.kind matches EntryKindV::Directory(d) ==> package_dispatch(
                pre,
                post,
                visited,
                d,
                scope,
                *bp,
                r,
            ))
        },
        AccessV::Multiple(l) => exists|steps: Seq<Map<Seq<char>, ConstrainedValueV>>|
            #![trigger steps.len()]
            accesses_chain(steps, pre, post, visited, entry, scope, l, r),
    }
}

/// The base guarantees of locating a package under a base directory: the two
/// lookup failures exactly, and the found entry's access dispatched in turn.
pub open spec fn package_dispatch(
    pre: Map<Seq<char>, ConstrainedValueV>,
    post: Map<Seq<char>, ConstrainedValueV>,
    visited: Seq<Seq<char>>,
    base: SourceDirV,
    scope: Seq<char>,
    p: PackageV,
    r: Result<(), ImportError>,
) -> bool
    decreases p, 0int,
{
    &&& package_lookup_outcome(pre, post, base, p.name, p.span, r)
    &&& (find_src(base.entries) matches Some(d) ==> (find_package_entry(d.entries, p.name)
        matches Some(ent) ==> access_dispatch(pre, post, visited, ent, scope, p.access, r)))
}

/// The first `k` members of the list were dispatched successfully, in order,
/// along the chain of stores.
pub open spec fn dispatched_prefix(
    steps: Seq<Map<Seq<char>, ConstrainedValueV>>,
    visited: Seq<Seq<char>>,
    entry: SourceEntryV,
    scope: Seq<char>,
    l: Seq<AccessV>,
    k: int,
) -> bool
    decreases l, 1int,
{
    forall|i: int|
        0 <= i < k && i < l.len() ==> access_dispatch(
            steps[i],
            steps[i + 1],
            visited,
            entry,
            scope,
            #[trigger] l[i],
            Ok(()),
        )
}

/// A list of accesses applied in order to a chain of stores `steps`: each
/// member takes the store its predecessors left. On success every member
/// succeeded; on failure the members before the first failing one succeeded,
/// the failing member's error is the overall result, and the members after
/// it were not attempted: the final store is the failing member's.
pub open spec fn accesses_chain(
    steps: Seq<Map<Seq<char>, ConstrainedValueV>>,
    pre: Map<Seq<char>, ConstrainedValueV>,
    post: Map<Seq<char>, ConstrainedValueV>,
    visited: Seq<Seq<char>>,
    entry: SourceEntryV,
    scope: Seq<char>,
    l: Seq<AccessV>,
    r: Result<(), ImportError>,
) -> bool
    decreases l, 2int,
{
    &&& steps.len() >= 1
    &&& steps[0] == pre
    &&& steps.last() == post
    &&& (r is Ok ==> steps.len() == l.len() + 1 && dispatched_prefix(
        steps,
        visited,
        entry,
        scope,
        l,
        l.len() as int,
    ))
    &&& (r is Err ==> {
        let k = steps.len() - 2;
        &&& 0 <= k < l.len()
        &&& dispatched_prefix(steps, visited, entry, scope, l, k)
        &&& access_dispatch(steps[k], steps[k + 1], visited, entry, scope, l[k], r)
    })
}

/// The guarantees of resolving one import declaration against the search
/// root: package lookup at the root, and the found entry's access dispatched
/// down the whole access tree.
pub open spec fn import_outcome(
    pre: Map<Seq<char>, ConstrainedValueV>,
    post: Map<Seq<char>, ConstrainedValueV>,
    visited: Seq<Seq<char>>,
    root: SourceDirV,
    scope: Seq<char>,
    imp: ImportV,
    r: Result<(), ImportError>,
) -> bool {
    package_dispatch(pre, post, visited, root, scope, imp.package, r)
}

/// The first `k` import declarations resolved successfully, in order, along
/// the chain of stores.
pub open spec fn imports_prefix(
    steps: Seq<Map<Seq<char>, ConstrainedValueV>>,
    visited: Seq<Seq<char>>,
    root: SourceDirV,
    scope: Seq<char>,
    imports: Seq<ImportV>,
    k: int,
) -> bool {
    forall|i: int|
        0 <= i < k && i < imports.len() ==> import_outcome(
            steps[i],
            steps[i + 1],
            visited,
            root,
            scope,
            #[trigger] imports[i],
            Ok(()),
        )
}

/// A loaded file's import declarations resolved in order against the search
/// root, under the scope the file was renamed to, through a chain of stores:
/// on success every import resolved; on failure the imports before the first
/// failing one resolved, the failing import's error is the overall result,
/// and the imports after it were not attempted.
pub open spec fn imports_chain(
    steps: Seq<Map<Seq<char>, ConstrainedValueV>>,
    pre: Map<Seq<char>, ConstrainedValueV>,
    post: Map<Seq<char>, ConstrainedValueV>,
    visited: Seq<Seq<char>>,
    root: SourceDirV,
    scope: Seq<char>,
    imports: Seq<ImportV>,
    r: Result<(), ImportError>,
) -> bool {
    &&& steps.len() >= 1
    &&& steps[0] == pre
    &&& steps.last() == post
    &&& (r is Ok ==> steps.len() == imports.len() + 1 && imports_prefix(
        steps,
        visited,
        root,
        scope,
        imports,
        imports.len() as int,
    ))
    &&& (r is Err ==> {
        let k = steps.len() - 2;
        &&& 0 <= k < imports.len()
        &&& imports_prefix(steps, visited, root, scope, imports, k)
        &&& import_outcome(steps[k], steps[k + 1], visited, root, scope, imports[k], r)
    })
}

/// Everything a star import guarantees: the base guarantees, and, for a
/// loaded file that is not already on the active path, the file's own
/// imports resolved in order against the search root, under the importing
/// scope the file was renamed to, starting from the store the unqualified
/// merge left.
pub open spec fn star_outcome(
    pre: Map<Seq<char>, ConstrainedValueV>,
    post: Map<Seq<char>, ConstrainedValueV>,
    visited: Seq<Seq<char>>,
    root: SourceDirV,
    entry: SourceEntryV,
    scope: Seq<char>,
    span: Span,
    r: Result<(), ImportError>,
) -> bool {
    &&& star_base(pre, post, visited, entry, span, r)
    &&& (entry.kind matches EntryKindV::File(ParseOutcomeV::Parsed(p)) ==> (load_outcome(
        entry,
        span,
    ) is Ok ==> (!visited.contains(entry.name) ==> exists|
        steps: Seq<Map<Seq<char>, ConstrainedValueV>>,
    |
        #![trigger steps.len()]
        imports_chain(
            steps,
            merge_defs(pre, p),
            post,
            visited.push(entry.name),
            root,
            scope,
            p.imports,
            r,
        ))))
}

/// Everything a symbol import guarantees: the base guarantees, and, when the
/// symbol was found in a loaded file that is not already on the active path,
/// the file's own imports resolved in order against the search root, under
/// the importing scope the file was renamed to, starting from the store
/// holding the installed symbol.
pub open spec fn symbol_outcome(
    pre: Map<Seq<char>, ConstrainedValueV>,
    post: Map<Seq<char>, ConstrainedValueV>,
    visited: Seq<Seq<char>>,
    root: SourceDirV,
    entry: SourceEntryV,
    scope: Seq<char>,
    s: ImportSymbolV,
    r: Result<(), ImportError>,
) -> bool {
    &&& symbol_base(pre, post, visited, entry, scope, s, r)
    &&& (entry.kind matches EntryKindV::File(ParseOutcomeV::Parsed(p)) ==> (load_outcome(
        entry,
        s.span,
    ) is Ok ==> (matched_value(p, s.symbol) matches Some(v) ==> (!visited.contains(entry.name)
        ==> exists|steps: Seq<Map<Seq<char>, ConstrainedValueV>>|
        #![trigger steps.len()]
        imports_chain(
            steps,
            pre.insert(spec_new_scope(scope, effective_name(s)), v),
            post,
            visited.push(entry.name),
            root,
            scope,
            p.imports,
            r,
        )))))
}

/// Everything dispatching one access guarantees, recursively down the whole
/// access tree, transitive imports included: as `access_dispatch`, with the
/// full star and symbol guarantees at the leaves.
pub open spec fn access_outcome(
    pre: Map<Seq<char>, ConstrainedValueV>,
    post: Map<Seq<char>, ConstrainedValueV>,
    visited: Seq<Seq<char>>,
    root: SourceDirV,
    entry: SourceEntryV,
    scope: Seq<char>,
    access: AccessV,
    r: Result<(), ImportError>,
) -> bool
    decreases access, 0int,
{
    match access {
        AccessV::Star(span) => star_outcome(pre, post, visited, root, entry, scope, span, r),
        AccessV::Symbol(s) => symbol_outcome(pre, post, visited, root, entry, scope, s, r),
        AccessV::SubPackage(bp) => {
            &&& (!(entry.kind is Directory) ==> (r matches Err(e) && e@
                == ImportErrorV::DirectoryError(bp.span) && post == pre))
            &&& (entry.kind matches EntryKindV::Directory(d) ==> package_outcome(
                pre,
                post,
                visited,
                root,
                d,
                scope,
                *bp,
                r,
            ))
        },
        AccessV::Multiple(l) => exists|steps: Seq<Map<Seq<char>, ConstrainedValueV>>|
            #![trigger steps.len()]
            accesses_chain_all(steps, pre, post, visited, root, entry, scope, l, r),
    }
}

/// Everything locating a package guarantees: the two lookup failures
/// exactly, and the found entry's access dispatched with the full
/// guarantees, whole-package resolution re-rooted at that entry.
pub open spec fn package_outcome(
    pre: Map<Seq<char>, ConstrainedValueV>,
    post: Map<Seq<char>, ConstrainedValueV>,
    visited: Seq<Seq<char>>,
    root: SourceDirV,
    base: SourceDirV,
    scope: Seq<char>,
    p: PackageV,
    r: Result<(), ImportError>,
) -> bool
    decreases p, 0int,
{
    &&& package_lookup_outcome(pre, post, base, p.name, p.span, r)
    &&& (find_src(base.entries) matches Some(d) ==> (find_package_entry(d.entries, p.name)
        matches Some(ent) ==> access_outcome(pre, post, visited, root, ent, scope, p.access, r)))
}

/// The first `k` members of the list were dispatched successfully with the
/// full guarantees, in order, along the chain of stores.
pub open spec fn outcome_prefix(
    steps: Seq<Map<Seq<char>, ConstrainedValueV>>,
    visited: Seq<Seq<char>>,
    root: SourceDirV,
    entry: SourceEntryV,
    scope: Seq<char>,
    l: Seq<AccessV>,
    k: int,
) -> bool
    decreases l, 1int,
{
    forall|i: int|
        0 <= i < k && i < l.len() ==> access_outcome(
            steps[i],
            steps[i + 1],
            visited,
            root,
            entry,
            scope,
            #[trigger] l[i],
            Ok(()),
        )
}

/// A list of accesses applied in order, each with the full guarantees.
pub open spec fn accesses_chain_all(
    steps: Seq<Map<Seq<char>, ConstrainedValueV>>,
    pre: Map<Seq<char>, ConstrainedValueV>,
    post: Map<Seq<char>, ConstrainedValueV>,
    visited: Seq<Seq<char>>,
    root: SourceDirV,
    entry: SourceEntryV,
    scope: Seq<char>,
    l: Seq<AccessV>,
    r: Result<(), ImportError>,
) -> bool
    decreases l, 2int,
{
    &&& steps.len() >= 1
    &&& steps[0] == pre
    &&& steps.last() == post
    &&& (r is Ok ==> steps.len() == l.len() + 1 && outcome_prefix(
        steps,
        visited,
        root,
        entry,
        scope,
        l,
        l.len() as int,
    ))
    &&& (r is Err ==> {
        let k = steps.len() - 2;
        &&& 0 <= k < l.len()
        &&& outcome_prefix(steps, visited, root, entry, scope, l, k)
        &&& access_outcome(steps[k], steps[k + 1], visited, root, entry, scope, l[k], r)
    })
}

/// A successful result of the resolver carries the unit value: there is only
/// one such value, so a result known to be successful is that value.
pub proof fn lemma_ok_unit(r: Result<(), ImportError>)
    requires
        r is Ok,
    ensures
        r == Ok::<(), ImportError>(()),
{
    match r {
        Ok(u) => {
            assert(r == Ok::<(), ImportError>(u));
        },
        Err(_) => {},
    }
}

/// Whether an entry's file name, with the source suffix stripped, equals the
/// package name.
pub fn matches_package_name(file: &String, package: &String) -> (r: bool)
    ensures
        r == name_matches(file@, package@),
{
    let fs = file.as_str();
    let n = fs.unicode_len();
    let suffixed: bool = if n >= 4 {
        fs.get_char(n - 4) == '.' && fs.get_char(n - 3) == 'l' && fs.get_char(n - 2) == 'e'
            && fs.get_char(n - 1) == 'o'
    } else {
        false
    };
    proof {
        reveal_strlit(".leo");
        if n >= 4 {
            if suffixed {
                assert(file@.subrange(n - 4, n as int) =~= ".leo"@);
            } else {
                assert(file@.subrange(n - 4, n as int) != ".leo"@) by {
                    if file@.subrange(n - 4, n as int) == ".leo"@ {
                        assert(file@.subrange(n - 4, n as int)[0] == '.');
                        assert(file@.subrange(n - 4, n as int)[1] == 'l');
                        assert(file@.subrange(n - 4, n as int)[2] == 'e');
                        assert(file@.subrange(n - 4, n as int)[3] == 'o');
                    }
                }
            }
        }
        assert(suffixed == has_leo_suffix(file@));
    }
    if suffixed {
        let ps = package.as_str();
        let p = ps.unicode_len();
        if p != n - 4 {
            proof {
                assert(file@.subrange(0, n - 4).len() != package@.len());
            }
            return false;
        }
        let mut i: usize = 0;
        while i < p
            invariant
                0 <= i <= p,
                fs@ == file@,
                ps@ == package@,
                p == package@.len(),
                p == n - 4,
                n == file@.len(),
                n >= 4,
                has_leo_suffix(file@),
                forall|j: int| 0 <= j < i ==> file@[j] == package@[j],
            decreases p - i,
        {
            if fs.get_char(i) != ps.get_char(i) {
                proof {
                    assert(file@.subrange(0, n - 4)[i as int] != package@[i as int]);
                }
                return false;
            }
            i = i + 1;
        }
        proof {
            assert(file@.subrange(0, n - 4) =~= package@);
        }
        true
    } else {
        *file == *package
    }
}

} // verus!

verus! {

/// Find the source subdirectory of a package root: the first entry named
/// `src`, when it is a directory. A missing or non-directory `src` entry is
/// a directory error, as an unreadable directory is.
fn find_source_directory<'a>(base: &'a SourceDir) -> (r: Option<&'a SourceDir>)
    ensures
        match r {
            Some(d) => find_src(base@.entries) == Some(d@) && (exists|i: int|
                0 <= i < base@.entries.len() && base@.entries[i].kind == EntryKindV::Directory(
                    d@,
                )),
            None => find_src(base@.entries) is None,
        },
{
    let src_name = String::from_str("src");
    let n = base.entries.len();
    let mut i: usize = 0;
    proof {
        lemma_entries_view(base.entries@);
        assert(base@.entries.skip(0) =~= base@.entries);
    }
    while i < n
        invariant
            0 <= i <= n,
            n == base.entries@.len(),
            base@.entries.len() == n,
            src_name@ == "src"@,
            forall|j: int| 0 <= j < n ==> base@.entries[j] == base.entries@[j]@,
            forall|j: int| 0 <= j < i ==> base@.entries[j].name != "src"@,
            find_src(base@.entries) == find_src(base@.entries.skip(i as int)),
        decreases n - i,
    {
        proof {
            assert(base@.entries.skip(i as int)[0] == base@.entries[i as int]);
        }
        if base.entries[i].name == src_name {
            match &base.entries[i].kind {
                EntryKind::Directory(d) => {
                    return Some(d);
                },
                _ => {
                    return None;
                },
            }
        }
        proof {
            assert(base@.entries.skip(i as int).drop_first() =~= base@.entries.skip(i as int + 1));
        }
        i = i + 1;
    }
    proof {
        assert(base@.entries.skip(n as int).len() == 0);
    }
    None
}

/// Find the first entry of the source directory whose file name matches the
/// package name.
fn find_package_entry_in<'a>(dir: &'a SourceDir, package: &String) -> (r: Option<
    &'a SourceEntry,
>)
    ensures
        match r {
            Some(e) => find_package_entry(dir@.entries, package@) == Some(e@) && (exists|i: int|
                0 <= i < dir@.entries.len() && dir@.entries[i] == e@),
            None => find_package_entry(dir@.entries, package@) is None,
        },
{
    let n = dir.entries.len();
    let mut i: usize = 0;
    proof {
        lemma_entries_view(dir.entries@);
        assert(dir@.entries.skip(0) =~= dir@.entries);
    }
    while i < n
        invariant
            0 <= i <= n,
            n == dir.entries@.len(),
            dir@.entries.len() == n,
            forall|j: int| 0 <= j < n ==> dir@.entries[j] == dir.entries@[j]@,
            forall|j: int| 0 <= j < i ==> !name_matches(dir@.entries[j].name, package@),
            find_package_entry(dir@.entries, package@) == find_package_entry(
                dir@.entries.skip(i as int),
                package@,
            ),
        decreases n - i,
    {
        proof {
            assert(dir@.entries.skip(i as int)[0] == dir@.entries[i as int]);
        }
        if matches_package_name(&dir.entries[i].name, package) {
            return Some(&dir.entries[i]);
        }
        proof {
            assert(dir@.entries.skip(i as int).drop_first() =~= dir@.entries.skip(i as int + 1));
        }
        i = i + 1;
    }
    proof {
        assert(dir@.entries.skip(n as int).len() == 0);
    }
    None
}

/// Find the first circuit of a loaded program carrying the name.
fn find_circuit_in<'a>(program: &'a Program, name: &String) -> (r: Option<&'a Circuit>)
    ensures
        match r {
            Some(c) => find_circuit(program@.circuits, name@) == Some(c@),
            None => find_circuit(program@.circuits, name@) is None,
        },
{
    let n = program.circuits.len();
    let mut i: usize = 0;
    proof {
        assert(program@.circuits.skip(0) =~= program@.circuits);
    }
    while i < n
        invariant
            0 <= i <= n,
            n == program.circuits@.len(),
            program@.circuits.len() == n,
            forall|j: int| 0 <= j < n ==> program@.circuits[j] == program.circuits@[j]@,
            forall|j: int| 0 <= j < i ==> program@.circuits[j].name != name@,
            find_circuit(program@.circuits, name@) == find_circuit(
                program@.circuits.skip(i as int),
                name@,
            ),
        decreases n - i,
    {
        proof {
            assert(program@.circuits.skip(i as int)[0] == program@.circuits[i as int]);
        }
        if program.circuits[i].name == *name {
            return Some(&program.circuits[i]);
        }
        proof {
            assert(program@.circuits.skip(i as int).drop_first() =~= program@.circuits.skip(
                i as int + 1,
            ));
        }
        i = i + 1;
    }
    proof {
        assert(program@.circuits.skip(n as int).len() == 0);
    }
    None
}

/// Find the first function of a loaded program carrying the name.
fn find_function_in<'a>(program: &'a Program, name: &String) -> (r: Option<&'a Function>)
    ensures
        match r {
            Some(f) => find_function(program@.functions, name@) == Some(f@),
            None => find_function(program@.functions, name@) is None,
        },
{
    let n = program.functions.len();
    let mut i: usize = 0;
    proof {
        assert(program@.functions.skip(0) =~= program@.functions);
    }
    while i < n
        invariant
            0 <= i <= n,
            n == program.functions@.len(),
            program@.functions.len() == n,
            forall|j: int| 0 <= j < n ==> program@.functions[j] == program.functions@[j]@,
            forall|j: int| 0 <= j < i ==> program@.functions[j].name != name@,
            find_function(program@.functions, name@) == find_function(
                program@.functions.skip(i as int),
                name@,
            ),
        decreases n - i,
    {
        proof {
            assert(program@.functions.skip(i as int)[0] == program@.functions[i as int]);
        }
        if program.functions[i].name == *name {
            return Some(&program.functions[i]);
        }
        proof {
            assert(program@.functions.skip(i as int).drop_first() =~= program@.functions.skip(
                i as int + 1,
            ));
        }
        i = i + 1;
    }
    proof {
        assert(program@.functions.skip(n as int).len() == 0);
    }
    None
}

/// The importing program under construction: the definition store the
/// resolver writes, and the cycle guard, the names of the source files
/// currently being resolved on the active call path.
pub struct ConstrainedProgram {
    pub store: DefinitionStore,
    pub visiting: Vec<String>,
}

impl ConstrainedProgram {
    /// The cycle guard is sound for a search root when it holds no name
    /// twice and every name on it occurs in the tree: then it cannot grow
    /// forever, which bounds the recursion.
    pub open spec fn wf(self, root: SourceDirV) -> bool {
        &&& visiting_names(self.visiting@).no_duplicates()
        &&& forall|i: int|
            0 <= i < self.visiting@.len() ==> dir_names(root).to_set().contains(
                #[trigger] visiting_names(self.visiting@)[i],
            )
    }

    /// How many source files of the tree are not yet on the active path: the
    /// termination measure of the recursion.
    pub open spec fn gas(self, root: SourceDirV) -> int {
        dir_names(root).to_set().len() - self.visiting@.len()
    }

    /// A fresh resolution: empty store, no file being resolved.
    pub fn new() -> (r: ConstrainedProgram)
        ensures
            r.store@ == Map::<Seq<char>, ConstrainedValueV>::empty(),
            r.visiting@.len() == 0,
            forall|root: SourceDirV| r.wf(root),
    {
        let r = ConstrainedProgram { store: DefinitionStore::new(), visiting: Vec::new() };
        proof {
            assert forall|root: SourceDirV| r.wf(root) by {
                assert(visiting_names(r.visiting@) =~= Seq::<Seq<char>>::empty());
            }
        }
        r
    }

    /// Whether a source file of this name is being resolved on the active
    /// path.
    fn is_visiting(&self, name: &String) -> (r: bool)
        ensures
            r == visiting_names(self.visiting@).contains(name@),
    {
        let n = self.visiting.len();
        let mut i: usize = 0;
        while i < n
            invariant
                0 <= i <= n,
                n == self.visiting@.len(),
                forall|j: int| 0 <= j < i ==> visiting_names(self.visiting@)[j] != name@,
            decreases n - i,
        {
            if self.visiting[i] == *name {
                proof {
                    assert(visiting_names(self.visiting@)[i as int] == name@);
                }
                return true;
            }
            i = i + 1;
        }
        false
    }
}

/// A sound cycle guard never outgrows the tree: the measure stays
/// non-negative.
pub proof fn lemma_gas_nonneg(cp: ConstrainedProgram, root: SourceDirV)
    requires
        cp.wf(root),
    ensures
        cp.gas(root) >= 0,
{
    let vn = visiting_names(cp.visiting@);
    vn.unique_seq_to_set();
    assert forall|x: Seq<char>| vn.to_set().contains(x) implies dir_names(
        root,
    ).to_set().contains(x) by {
        let i = choose|i: int| 0 <= i < vn.len() && vn[i] == x;
    }
    vstd::set_lib::lemma_len_subset(vn.to_set(), dir_names(root).to_set());
}

} // verus!

verus! {

impl ConstrainedProgram {
    /// Resolve one import declaration of the importing program against the
    /// search root. This is the sole entry point per top-level import
    /// declaration; the surrounding compiler resolves the process's current
    /// working directory into the tree handed here.
    pub fn enforce_import(
        &mut self,
        root: &SourceDir,
        scope: &String,
        import: &Import,
    ) -> (r: Result<(), ImportError>)
        requires
            old(self).wf(root@),
        ensures
            final(self).visiting@ == old(self).visiting@,
            old(self).store@.dom() <= final(self).store@.dom(),
            import_outcome(
                old(self).store@,
                final(self).store@,
                visiting_names(old(self).visiting@),
                root@,
                scope@,
                import@,
                r,
            ),
            package_outcome(
                old(self).store@,
                final(self).store@,
                visiting_names(old(self).visiting@),
                root@,
                root@,
                scope@,
                import@.package,
                r,
            ),
        decreases self.gas(root@), import_size(import@), 3int,
    {
        self.enforce_package(root, scope, root, &import.package)
    }

    /// Locate a package under a base directory and dispatch its access: the
    /// fixed source subdirectory is listed, and the entry whose file name
    /// (source suffix stripped) equals the package's name is resolved. A
    /// missing or unreadable source directory is a directory error; a
    /// missing entry an unknown package.
    pub fn enforce_package(
        &mut self,
        root: &SourceDir,
        scope: &String,
        base: &SourceDir,
        package: &Package,
    ) -> (r: Result<(), ImportError>)
        requires
            old(self).wf(root@),
            dir_names(base@).to_set() <= dir_names(root@).to_set(),
        ensures
            final(self).visiting@ == old(self).visiting@,
            old(self).store@.dom() <= final(self).store@.dom(),
            package_dispatch(
                old(self).store@,
                final(self).store@,
                visiting_names(old(self).visiting@),
                base@,
                scope@,
                package@,
                r,
            ),
            package_outcome(
                old(self).store@,
                final(self).store@,
                visiting_names(old(self).visiting@),
                root@,
                base@,
                scope@,
                package@,
                r,
            ),
        decreases self.gas(root@), package_size(package@), 3int,
    {
        match find_source_directory(base) {
            None => Err(ImportError::DirectoryError(package.span)),
            Some(src_dir) => {
                match find_package_entry_in(src_dir, &package.name) {
                    None => Err(
                        ImportError::UnknownPackage(package.name.clone(), package.span),
                    ),
                    Some(entry) => {
                        proof {
                            let i = choose|i: int|
                                0 <= i < src_dir@.entries.len() && src_dir@.entries[i] == entry@;
                            lemma_entries_names_contain(src_dir@.entries, i);
                            let j = choose|j: int|
                                0 <= j < base@.entries.len() && base@.entries[j].kind
                                    == EntryKindV::Directory(src_dir@);
                            lemma_entry_names_dir(base@.entries[j], src_dir@);
                            lemma_entries_names_contain(base@.entries, j);
                            assert(entry_names(entry@).to_set() <= dir_names(root@).to_set());
                        }
                        self.enforce_package_access(root, scope, entry, &package.access)
                    },
                }
            },
        }
    }

    /// Dispatch one package-access specification against a located entry:
    /// import everything, one named symbol, a nested sub-package rooted at
    /// the entry itself, or an ordered list applied under the same scope,
    /// aborting on the first failure and keeping the effects already
    /// applied.
    pub fn enforce_package_access(
        &mut self,
        root: &SourceDir,
        scope: &String,
        entry: &SourceEntry,
        access: &PackageAccess,
    ) -> (r: Result<(), ImportError>)
        requires
            old(self).wf(root@),
            entry_names(entry@).to_set() <= dir_names(root@).to_set(),
        ensures
            final(self).visiting@ == old(self).visiting@,
            old(self).store@.dom() <= final(self).store@.dom(),
            access_dispatch(
                old(self).store@,
                final(self).store@,
                visiting_names(old(self).visiting@),
                entry@,
                scope@,
                access@,
                r,
            ),
            access_outcome(
                old(self).store@,
                final(self).store@,
                visiting_names(old(self).visiting@),
                root@,
                entry@,
                scope@,
                access@,
                r,
            ),
        decreases self.gas(root@), access_size(access@), 3int,
    {
        match access {
            PackageAccess::Star(span) => {
                let res = self.enforce_import_star(root, scope, entry, *span);
                proof {
                    assert(access@ == AccessV::Star(*span));
                    assert(star_base(
                        old(self).store@,
                        self.store@,
                        visiting_names(old(self).visiting@),
                        entry@,
                        *span,
                        res,
                    ));
                }
                res
            },
            PackageAccess::Symbol(symbol) => self.enforce_import_symbol(
                root,
                scope,
                entry,
                symbol,
            ),
            PackageAccess::SubPackage(package) => {
                // whole-package resolution re-entered at the matched entry's
                // own path; only a directory can serve as a package root
                match &entry.kind {
                    EntryKind::Directory(d) => {
                        proof {
                            lemma_entry_names_dir(entry@, d@);
                        }
                        self.enforce_package(root, scope, d, package)
                    },
                    _ => Err(ImportError::DirectoryError(package.span)),
                }
            },
            PackageAccess::Multiple(list) => {
                let ghost pre_vis = self.visiting@;
                let ghost pre_dom = self.store@.dom();
                let ghost lv = accesses_view(list@);
                let ghost visited = visiting_names(self.visiting@);
                let ghost mut steps: Seq<Map<Seq<char>, ConstrainedValueV>> = seq![self.store@];
                proof {
                    lemma_accesses_view(list@);
                }
                let n = list.len();
                let mut i: usize = 0;
                while i < n
                    invariant
                        0 <= i <= n,
                        n == list@.len(),
                        self.wf(root@),
                        self.visiting@ == pre_vis,
                        pre_vis == old(self).visiting@,
                        pre_dom <= self.store@.dom(),
                        pre_dom == old(self).store@.dom(),
                        entry_names(entry@).to_set() <= dir_names(root@).to_set(),
                        access_view(*access) == AccessV::Multiple(accesses_view(list@)),
                        i == 0 ==> self.store@ == old(self).store@,
                        lv == accesses_view(list@),
                        lv.len() == n,
                        forall|j: int| 0 <= j < n ==> lv[j] == access_view(list@[j]),
                        visited == visiting_names(old(self).visiting@),
                        steps.len() == i + 1,
                        steps[0] == old(self).store@,
                        steps.last() == self.store@,
                        dispatched_prefix(steps, visited, entry@, scope@, lv, i as int),
                        outcome_prefix(steps, visited, root@, entry@, scope@, lv, i as int),
                    decreases n - i,
                {
                    proof {
                        lemma_accesses_view(list@);
                        lemma_access_size_le(accesses_view(list@), i as int);
                    }
                    let ghost before_store = self.store@;
                    let res = self.enforce_package_access(root, scope, entry, &list[i]);
                    proof {
                        let prev_steps = steps;
                        steps = steps.push(self.store@);
                        assert(dispatched_prefix(steps, visited, entry@, scope@, lv, i as int))
                            by {
                            assert forall|j: int|
                                0 <= j < i as int && j < lv.len() implies access_dispatch(
                                steps[j],
                                steps[j + 1],
                                visited,
                                entry@,
                                scope@,
                                #[trigger] lv[j],
                                Ok(()),
                            ) by {
                                assert(access_dispatch(
                                    prev_steps[j],
                                    prev_steps[j + 1],
                                    visited,
                                    entry@,
                                    scope@,
                                    lv[j],
                                    Ok(()),
                                ));
                                assert(steps[j] == prev_steps[j]);
                                assert(steps[j + 1] == prev_steps[j + 1]);
                            }
                        }
                        assert(outcome_prefix(steps, visited, root@, entry@, scope@, lv, i as int))
                            by {
                            assert forall|j: int|
                                0 <= j < i as int && j < lv.len() implies access_outcome(
                                steps[j],
                                steps[j + 1],
                                visited,
                                root@,
                                entry@,
                                scope@,
                                #[trigger] lv[j],
                                Ok(()),
                            ) by {
                                assert(access_outcome(
                                    prev_steps[j],
                                    prev_steps[j + 1],
                                    visited,
                                    root@,
                                    entry@,
                                    scope@,
                                    lv[j],
                                    Ok(()),
                                ));
                                assert(steps[j] == prev_steps[j]);
                                assert(steps[j + 1] == prev_steps[j + 1]);
                            }
                        }
                        assert(steps[i as int] == before_store);
                        assert(steps[i as int + 1] == self.store@);
                        assert(lv[i as int] == list@[i as int]@);
                        assert(access_dispatch(
                            steps[i as int],
                            steps[i as int + 1],
                            visited,
                            entry@,
                            scope@,
                            lv[i as int],
                            res,
                        ));
                        assert(access_outcome(
                            steps[i as int],
                            steps[i as int + 1],
                            visited,
                            root@,
                            entry@,
                            scope@,
                            lv[i as int],
                            res,
                        ));
                    }
                    if res.is_err() {
                        proof {
                            assert(steps.len() - 2 == i as int);
                            assert(access@ == AccessV::Multiple(lv));
                            assert(accesses_chain(
                                steps,
                                old(self).store@,
                                self.store@,
                                visited,
                                entry@,
                                scope@,
                                lv,
                                res,
                            ));
                            assert(accesses_chain_all(
                                steps,
                                old(self).store@,
                                self.store@,
                                visited,
                                root@,
                                entry@,
                                scope@,
                                lv,
                                res,
                            ));
                        }
                        return res;
                    }
                    proof {
                        lemma_ok_unit(res);
                        assert(access_dispatch(
                            steps[i as int],
                            steps[i as int + 1],
                            visited,
                            entry@,
                            scope@,
                            lv[i as int],
                            Ok(()),
                        ));
                        assert(access_outcome(
                            steps[i as int],
                            steps[i as int + 1],
                            visited,
                            root@,
                            entry@,
                            scope@,
                            lv[i as int],
                            Ok(()),
                        ));
                        assert(dispatched_prefix(
                            steps,
                            visited,
                            entry@,
                            scope@,
                            lv,
                            i as int + 1,
                        )) by {
                            assert forall|j: int|
                                0 <= j < i as int + 1 && j < lv.len() implies access_dispatch(
                                steps[j],
                                steps[j + 1],
                                visited,
                                entry@,
                                scope@,
                                #[trigger] lv[j],
                                Ok(()),
                            ) by {
                                if j < i as int {
                                    assert(dispatched_prefix(
                                        steps,
                                        visited,
                                        entry@,
                                        scope@,
                                        lv,
                                        i as int,
                                    ));
                                }
                            }
                        }
                        assert(outcome_prefix(
                            steps,
                            visited,
                            root@,
                            entry@,
                            scope@,
                            lv,
                            i as int + 1,
                        )) by {
                            assert forall|j: int|
                                0 <= j < i as int + 1 && j < lv.len() implies access_outcome(
                                steps[j],
                                steps[j + 1],
                                visited,
                                root@,
                                entry@,
                                scope@,
                                #[trigger] lv[j],
                                Ok(()),
                            ) by {
                                if j < i as int {
                                    assert(outcome_prefix(
                                        steps,
                                        visited,
                                        root@,
                                        entry@,
                                        scope@,
                                        lv,
                                        i as int,
                                    ));
                                }
                            }
                        }
                    }
                    i = i + 1;
                }
                proof {
                    assert(access@ == AccessV::Multiple(lv));
                    assert(accesses_chain(
                        steps,
                        old(self).store@,
                        self.store@,
                        visited,
                        entry@,
                        scope@,
                        lv,
                        Ok::<(), ImportError>(()),
                    ));
                    assert(accesses_chain_all(
                        steps,
                        old(self).store@,
                        self.store@,
                        visited,
                        root@,
                        entry@,
                        scope@,
                        lv,
                        Ok::<(), ImportError>(()),
                    ));
                }
                Ok(())
            },
        }
    }

    /// Import everything: load the entry as a source file, give the loaded
    /// program the importing scope as its namespace, and merge all of its
    /// circuits, functions and (recursively) its own imports into the store,
    /// unqualified.
    pub fn enforce_import_star(
        &mut self,
        root: &SourceDir,
        scope: &String,
        entry: &SourceEntry,
        span: Span,
    ) -> (r: Result<(), ImportError>)
        requires
            old(self).wf(root@),
            entry_names(entry@).to_set() <= dir_names(root@).to_set(),
        ensures
            final(self).visiting@ == old(self).visiting@,
            old(self).store@.dom() <= final(self).store@.dom(),
            star_outcome(
                old(self).store@,
                final(self).store@,
                visiting_names(old(self).visiting@),
                root@,
                entry@,
                scope@,
                span,
                r,
            ),
        decreases self.gas(root@), 0int, 2int,
    {
        let file_name = match parse_import_file(entry, &span) {
            Ok(n) => n,
            Err(e) => {
                return Err(e);
            },
        };
        let program = loaded_program(entry);
        proof {
            lemma_entry_names_head(entry@);
        }
        // the merge that installs a whole program's declarations
        self.resolve_definitions(root, scope, file_name, program, span)
    }

    /// Install a whole loaded program: every circuit, then every function,
    /// each under its own unqualified name, then resolve the program's own
    /// imports under the importing scope.
    fn resolve_definitions(
        &mut self,
        root: &SourceDir,
        scope: &String,
        file_name: String,
        program: &Program,
        span: Span,
    ) -> (r: Result<(), ImportError>)
        requires
            old(self).wf(root@),
            dir_names(root@).to_set().contains(file_name@),
        ensures
            final(self).visiting@ == old(self).visiting@,
            old(self).store@.dom() <= final(self).store@.dom(),
            forall|i: int|
                0 <= i < program@.circuits.len() ==> final(self).store@.dom().contains(
                    #[trigger] program@.circuits[i].name,
                ),
            forall|i: int|
                0 <= i < program@.functions.len() ==> final(self).store@.dom().contains(
                    #[trigger] program@.functions[i].name,
                ),
            visiting_names(old(self).visiting@).contains(file_name@) ==> (r matches Err(e) && e@
                == ImportErrorV::CyclicImport(file_name@, span) && final(self).store@
                == merge_defs(old(self).store@, program@)),
            (!visiting_names(old(self).visiting@).contains(file_name@) && program@.imports.len()
                == 0) ==> (r is Ok && final(self).store@ == merge_defs(old(self).store@, program@)),
            !visiting_names(old(self).visiting@).contains(file_name@) ==> exists|
                steps: Seq<Map<Seq<char>, ConstrainedValueV>>,
            |
                #![trigger steps.len()]
                imports_chain(
                    steps,
                    merge_defs(old(self).store@, program@),
                    final(self).store@,
                    visiting_names(old(self).visiting@).push(file_name@),
                    root@,
                    scope@,
                    program@.imports,
                    r,
                ),
        decreases self.gas(root@), 0int, 1int,
    {
        let ghost pre = self.store@;
        let nc = program.circuits.len();
        let mut i: usize = 0;
        while i < nc
            invariant
                0 <= i <= nc,
                nc == program.circuits@.len(),
                program@.circuits.len() == nc,
                forall|j: int| 0 <= j < nc ==> program@.circuits[j] == program.circuits@[j]@,
                self.store@ == merge_circuits(pre, program@.circuits, i as int),
                self.visiting@ == old(self).visiting@,
            decreases nc - i,
        {
            let c = &program.circuits[i];
            self.store.store(c.name.clone(), ConstrainedValue::CircuitDefinition(c.clone()));
            i = i + 1;
        }
        let ghost mc = self.store@;
        let nf = program.functions.len();
        let mut k: usize = 0;
        while k < nf
            invariant
                0 <= k <= nf,
                nf == program.functions@.len(),
                program@.functions.len() == nf,
                forall|j: int| 0 <= j < nf ==> program@.functions[j] == program.functions@[j]@,
                mc == merge_circuits(pre, program@.circuits, program@.circuits.len() as int),
                pre == old(self).store@,
                self.store@ == merge_functions(mc, program@.functions, k as int),
                self.visiting@ == old(self).visiting@,
            decreases nf - k,
        {
            let f = &program.functions[k];
            self.store.store(f.name.clone(), ConstrainedValue::FunctionDefinition(f.clone()));
            k = k + 1;
        }
        proof {
            lemma_merge_circuits_dom(pre, program@.circuits, program@.circuits.len() as int);
            lemma_merge_functions_dom(mc, program@.functions, program@.functions.len() as int);
            assert(self.store@ == merge_defs(pre, program@));
        }
        // every import statement of the merged file resolves under the
        // importing scope, which the loaded program was renamed to
        self.resolve_nested_imports(root, scope, file_name, &program.imports, span)
    }

    /// Resolve the imports a loaded source file declares, with the cycle
    /// guard: a file whose name is already being resolved on the active
    /// call path fails with a cyclic-import error instead of recursing.
    fn resolve_nested_imports(
        &mut self,
        root: &SourceDir,
        scope: &String,
        file_name: String,
        imports: &Vec<Import>,
        span: Span,
    ) -> (r: Result<(), ImportError>)
        requires
            old(self).wf(root@),
            dir_names(root@).to_set().contains(file_name@),
        ensures
            final(self).visiting@ == old(self).visiting@,
            old(self).store@.dom() <= final(self).store@.dom(),
            visiting_names(old(self).visiting@).contains(file_name@) ==> (r matches Err(e) && e@
                == ImportErrorV::CyclicImport(file_name@, span) && final(self).store@ == old(self).store@),
            (!visiting_names(old(self).visiting@).contains(file_name@) && imports@.len() == 0)
                ==> (r is Ok && final(self).store@ == old(self).store@),
            !visiting_names(old(self).visiting@).contains(file_name@) ==> exists|
                steps: Seq<Map<Seq<char>, ConstrainedValueV>>,
            |
                #![trigger steps.len()]
                imports_chain(
                    steps,
                    old(self).store@,
                    final(self).store@,
                    visiting_names(old(self).visiting@).push(file_name@),
                    root@,
                    scope@,
                    imports_view(imports@),
                    r,
                ),
        decreases self.gas(root@), 0int, 0int,
    {
        let ghost fname: Seq<char> = file_name@;
        if self.is_visiting(&file_name) {
            return Err(ImportError::CyclicImport(file_name, span));
        }
        let ghost pre_vis = self.visiting@;
        let ghost pre_dom = self.store@.dom();
        self.visiting.push(file_name);
        let ghost vis1 = self.visiting@;
        proof {
            assert(visiting_names(vis1) =~= visiting_names(pre_vis).push(fname));
            assert forall|a: int, b: int|
                0 <= a < visiting_names(vis1).len() && 0 <= b < visiting_names(vis1).len() && a
                    != b implies visiting_names(vis1)[a] != visiting_names(vis1)[b] by {
                if a < visiting_names(pre_vis).len() && b < visiting_names(pre_vis).len() {
                    assert(visiting_names(pre_vis).no_duplicates());
                }
            }
            assert(self.wf(root@));
        }
        let ghost iv = imports_view(imports@);
        let ghost pushed = visiting_names(pre_vis).push(fname);
        let ghost mut steps: Seq<Map<Seq<char>, ConstrainedValueV>> = seq![self.store@];
        let n = imports.len();
        let mut i: usize = 0;
        while i < n
            invariant
                0 <= i <= n,
                n == imports@.len(),
                self.wf(root@),
                self.visiting@ == vis1,
                vis1 == pre_vis.push(vis1.last()),
                vis1.len() == pre_vis.len() + 1,
                pre_vis == old(self).visiting@,
                pre_dom <= self.store@.dom(),
                pre_dom == old(self).store@.dom(),
                fname == file_name@,
                !visiting_names(pre_vis).contains(fname),
                i == 0 ==> self.store@ == old(self).store@,
                iv == imports_view(imports@),
                iv.len() == n,
                pushed == visiting_names(pre_vis).push(fname),
                visiting_names(vis1) == pushed,
                steps.len() == i + 1,
                steps[0] == old(self).store@,
                steps.last() == self.store@,
                imports_prefix(steps, pushed, root@, scope@, iv, i as int),
            decreases n - i,
        {
            proof {
                lemma_gas_nonneg(*self, root@);
            }
            let ghost before_store = self.store@;
            let res = self.enforce_import(root, scope, &imports[i]);
            proof {
                let prev_steps = steps;
                steps = steps.push(self.store@);
                assert(imports_prefix(steps, pushed, root@, scope@, iv, i as int)) by {
                    assert forall|j: int|
                        0 <= j < i as int && j < iv.len() implies import_outcome(
                        steps[j],
                        steps[j + 1],
                        pushed,
                        root@,
                        scope@,
                        #[trigger] iv[j],
                        Ok(()),
                    ) by {
                        assert(import_outcome(
                            prev_steps[j],
                            prev_steps[j + 1],
                            pushed,
                            root@,
                            scope@,
                            iv[j],
                            Ok(()),
                        ));
                        assert(steps[j] == prev_steps[j]);
                        assert(steps[j + 1] == prev_steps[j + 1]);
                    }
                }
                assert(steps[i as int] == before_store);
                assert(steps[i as int + 1] == self.store@);
                assert(iv[i as int] == imports@[i as int]@);
                assert(import_outcome(
                    steps[i as int],
                    steps[i as int + 1],
                    pushed,
                    root@,
                    scope@,
                    iv[i as int],
                    res,
                ));
            }
            if res.is_err() {
                let _dropped = self.visiting.pop();
                proof {
                    assert(self.visiting@ =~= pre_vis);
                    assert(steps.len() - 2 == i as int);
                    assert(imports_chain(
                        steps,
                        old(self).store@,
                        self.store@,
                        pushed,
                        root@,
                        scope@,
                        iv,
                        res,
                    ));
                }
                return res;
            }
            proof {
                lemma_ok_unit(res);
                assert(import_outcome(
                    steps[i as int],
                    steps[i as int + 1],
                    pushed,
                    root@,
                    scope@,
                    iv[i as int],
                    Ok(()),
                ));
                assert(imports_prefix(steps, pushed, root@, scope@, iv, i as int + 1)) by {
                    assert forall|j: int|
                        0 <= j < i as int + 1 && j < iv.len() implies import_outcome(
                        steps[j],
                        steps[j + 1],
                        pushed,
                        root@,
                        scope@,
                        #[trigger] iv[j],
                        Ok(()),
                    ) by {
                        if j < i as int {
                            assert(imports_prefix(steps, pushed, root@, scope@, iv, i as int));
                        }
                    }
                }
            }
            i = i + 1;
        }
        let _dropped = self.visiting.pop();
        proof {
            assert(self.visiting@ =~= pre_vis);
            assert(imports_chain(
                steps,
                old(self).store@,
                self.store@,
                pushed,
                root@,
                scope@,
                iv,
                Ok::<(), ImportError>(()),
            ));
        }
        Ok(())
    }
}

} // verus!

verus! {

impl ConstrainedProgram {
    /// Import one named symbol: load the entry as a source file, search the
    /// loaded program's circuits first and its functions second for the
    /// requested name, install the found definition under the qualified name
    /// joining the loaded program's (renamed) name with the alias or the
    /// original symbol name, then resolve the loaded file's own imports
    /// transitively. A fruitless search is an unknown-symbol error naming
    /// the symbol, the loaded program and the file searched.
    pub fn enforce_import_symbol(
        &mut self,
        root: &SourceDir,
        scope: &String,
        entry: &SourceEntry,
        symbol: &ImportSymbol,
    ) -> (r: Result<(), ImportError>)
        requires
            old(self).wf(root@),
            entry_names(entry@).to_set() <= dir_names(root@).to_set(),
        ensures
            final(self).visiting@ == old(self).visiting@,
            old(self).store@.dom() <= final(self).store@.dom(),
            symbol_outcome(
                old(self).store@,
                final(self).store@,
                visiting_names(old(self).visiting@),
                root@,
                entry@,
                scope@,
                symbol@,
                r,
            ),
        decreases self.gas(root@), 0int, 2int,
    {
        let file_name = match parse_import_file(entry, &symbol.span) {
            Ok(n) => n,
            Err(e) => {
                return Err(e);
            },
        };
        let program = loaded_program(entry);
        // the loaded program's circuits are searched first, then its
        // functions; a found function is wrapped with no pre-bound
        // call-site context
        let value = match find_circuit_in(program, &symbol.symbol) {
            Some(c) => ConstrainedValue::CircuitDefinition(c.clone()),
            None => match find_function_in(program, &symbol.symbol) {
                Some(f) => ConstrainedValue::FunctionDefinition(f.clone()),
                None => {
                    return Err(
                        ImportError::UnknownSymbol {
                            symbol: symbol.symbol.clone(),
                            program: scope.clone(),
                            file: file_name,
                            span: symbol.span,
                        },
                    );
                },
            },
        };
        // the alias, when given, names the symbol locally
        let local = match &symbol.alias {
            Some(a) => a,
            None => &symbol.symbol,
        };
        let resolved_name = new_scope(scope, local);
        self.store.store(resolved_name, value);
        proof {
            lemma_entry_names_head(entry@);
        }
        // resolve every import statement of the imported file, under the
        // loaded program's (renamed) name, guarding against import cycles
        self.resolve_nested_imports(root, scope, file_name, &program.imports, symbol.span)
    }
}

} // verus!

verus! {

/// Law: an access list is fail-fast without rollback. For a list of two
/// symbol imports against a loaded, import-free file that is not on the
/// active path, where the first symbol is found and the second is not, the
/// whole dispatch reports the second member's unknown-symbol failure, and
/// the final store still holds the definition the first member installed.
pub proof fn lemma_multiple_fail_fast_keeps_effects(
    pre: Map<Seq<char>, ConstrainedValueV>,
    post: Map<Seq<char>, ConstrainedValueV>,
    visited: Seq<Seq<char>>,
    entry: SourceEntryV,
    scope: Seq<char>,
    a: ImportSymbolV,
    b: ImportSymbolV,
    p: ProgramV,
    r: Result<(), ImportError>,
)
    requires
        access_dispatch(
            pre,
            post,
            visited,
            entry,
            scope,
            AccessV::Multiple(seq![AccessV::Symbol(a), AccessV::Symbol(b)]),
            r,
        ),
        entry.kind == EntryKindV::File(ParseOutcomeV::Parsed(p)),
        load_outcome(entry, a.span) is Ok,
        load_outcome(entry, b.span) is Ok,
        matched_value(p, a.symbol) is Some,
        matched_value(p, b.symbol) is None,
        p.imports.len() == 0,
        !visited.contains(entry.name),
    ensures
        r matches Err(e) && e@ == (ImportErrorV::UnknownSymbol {
            symbol: b.symbol,
            program: scope,
            file: entry.name,
            span: b.span,
        }),
        post == pre.insert(
            spec_new_scope(scope, effective_name(a)),
            matched_value(p, a.symbol)->Some_0,
        ),
{
    let l = seq![AccessV::Symbol(a), AccessV::Symbol(b)];
    let va = matched_value(p, a.symbol)->Some_0;
    let steps = choose|steps: Seq<Map<Seq<char>, ConstrainedValueV>>|
        #![trigger steps.len()]
        accesses_chain(steps, pre, post, visited, entry, scope, l, r);
    if r is Ok {
        assert(dispatched_prefix(steps, visited, entry, scope, l, 2));
        assert(access_dispatch(steps[1], steps[2], visited, entry, scope, l[1], Ok(())));
        assert(symbol_base(steps[1], steps[2], visited, entry, scope, b, Ok(())));
        assert(false);
    }
    let k = steps.len() - 2;
    if k == 0 {
        assert(access_dispatch(steps[0], steps[1], visited, entry, scope, l[0], r));
        assert(symbol_base(steps[0], steps[1], visited, entry, scope, a, r));
        assert(false);
    }
    assert(k == 1);
    assert(dispatched_prefix(steps, visited, entry, scope, l, 1));
    assert(access_dispatch(steps[0], steps[1], visited, entry, scope, l[0], Ok(())));
    assert(symbol_base(steps[0], steps[1], visited, entry, scope, a, Ok(())));
    assert(steps[1] == pre.insert(spec_new_scope(scope, effective_name(a)), va));
    assert(access_dispatch(steps[1], steps[2], visited, entry, scope, l[1], r));
    assert(symbol_base(steps[1], steps[2], visited, entry, scope, b, r));
    assert(steps[2] == steps.last());
}

/// Law: a nested failure fails the whole symbol import. When the loaded file
/// declares one import whose package has no matching entry under the search
/// root's source directory, the symbol import cannot succeed, however the
/// symbol search itself went.
pub proof fn lemma_nested_failure_fails_symbol_import(
    pre: Map<Seq<char>, ConstrainedValueV>,
    post: Map<Seq<char>, ConstrainedValueV>,
    visited: Seq<Seq<char>>,
    root: SourceDirV,
    entry: SourceEntryV,
    scope: Seq<char>,
    s: ImportSymbolV,
    p: ProgramV,
    imp: ImportV,
    r: Result<(), ImportError>,
)
    requires
        symbol_outcome(pre, post, visited, root, entry, scope, s, r),
        entry.kind == EntryKindV::File(ParseOutcomeV::Parsed(p)),
        load_outcome(entry, s.span) is Ok,
        matched_value(p, s.symbol) is Some,
        !visited.contains(entry.name),
        p.imports == seq![imp],
        find_src(root.entries) matches Some(d) && find_package_entry(
            d.entries,
            imp.package.name,
        ) is None,
    ensures
        r is Err,
{
    if r is Ok {
        let v = matched_value(p, s.symbol)->Some_0;
        let steps = choose|steps: Seq<Map<Seq<char>, ConstrainedValueV>>|
            #![trigger steps.len()]
            imports_chain(
                steps,
                pre.insert(spec_new_scope(scope, effective_name(s)), v),
                post,
                visited.push(entry.name),
                root,
                scope,
                p.imports,
                r,
            );
        assert(imports_prefix(steps, visited.push(entry.name), root, scope, p.imports, 1));
        assert(import_outcome(
            steps[0],
            steps[1],
            visited.push(entry.name),
            root,
            scope,
            p.imports[0],
            Ok(()),
        ));
        assert(package_dispatch(
            steps[0],
            steps[1],
            visited.push(entry.name),
            root,
            scope,
            imp.package,
            Ok(()),
        ));
        assert(package_lookup_outcome(
            steps[0],
            steps[1],
            root,
            imp.package.name,
            imp.package.span,
            Ok(()),
        ));
        assert(false);
    }
}

} // verus!
