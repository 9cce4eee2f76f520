//! The source loader's view of the filesystem. The surrounding compiler lists
//! directories, reads files and runs the external parser; what this layer
//! receives is the result of that work as a value: a tree of named entries,
//! each a parsed (or malformed) source file, a subdirectory, or an entry
//! whose file type could not be determined. `parse_import_file` performs the
//! loader's checks over one entry, and the import errors of the whole
//! resolver are declared here.

use vstd::prelude::*;
use crate::ast::Program;
use crate::ast::ProgramV;
use crate::ast::Span;

verus! {

/// What the external parser made of a source file: a program, or a parse
/// error message.
pub enum ParseOutcome {
    Parsed(Program),
    Malformed(String),
}

/// Ghost view of `ParseOutcome`.
pub enum ParseOutcomeV {
    Parsed(ProgramV),
    Malformed(Seq<char>),
}

/// What a directory entry is: a source file with its parse outcome, a
/// subdirectory with its own entries, or an entry whose file type the
/// filesystem could not determine.
pub enum EntryKind {
    File(ParseOutcome),
    Directory(SourceDir),
    Unknown,
}

/// Ghost view of `EntryKind`.
pub enum EntryKindV {
    File(ParseOutcomeV),
    Directory(SourceDirV),
    Unknown,
}

/// One directory entry: its file name, whether that name converts to
/// portable text, and what the entry is.
pub struct SourceEntry {
    pub name: String,
    pub name_convertible: bool,
    pub kind: EntryKind,
}

/// Ghost view of `SourceEntry`.
pub struct SourceEntryV {
    pub name: Seq<char>,
    pub name_convertible: bool,
    pub kind: EntryKindV,
}

/// A directory: its entries, in listing order.
pub struct SourceDir {
    pub entries: Vec<SourceEntry>,
}

/// Ghost view of `SourceDir`.
pub struct SourceDirV {
    pub entries: Seq<SourceEntryV>,
}

/// Recursive view of an entry.
pub open spec fn entry_view(e: SourceEntry) -> SourceEntryV
    decreases e,
{
    SourceEntryV {
        name: e.name@,
        name_convertible: e.name_convertible,
        kind: match e.kind {
            EntryKind::File(ParseOutcome::Parsed(p)) => EntryKindV::File(ParseOutcomeV::Parsed(p@)),
            EntryKind::File(ParseOutcome::Malformed(m)) => EntryKindV::File(
                ParseOutcomeV::Malformed(m@),
            ),
            EntryKind::Directory(d) => EntryKindV::Directory(dir_view(d)),
            EntryKind::Unknown => EntryKindV::Unknown,
        },
    }
}

/// Recursive view of a directory.
pub open spec fn dir_view(d: SourceDir) -> SourceDirV
    decreases d,
{
    SourceDirV { entries: entries_view(d.entries@) }
}

/// Recursive view of a listing.
pub open spec fn entries_view(es: Seq<SourceEntry>) -> Seq<SourceEntryV>
    decreases es,
{
    if es.len() == 0 {
        Seq::empty()
    } else {
        seq![entry_view(es[0])] + entries_view(es.drop_first())
    }
}

/// The view of a listing is the pointwise view of its entries.
pub proof fn lemma_entries_view(es: Seq<SourceEntry>)
    ensures
        entries_view(es).len() == es.len(),
        forall|i: int| 0 <= i < es.len() ==> entries_view(es)[i] == entry_view(es[i]),
    decreases es,
{
    if es.len() > 0 {
        lemma_entries_view(es.drop_first());
    }
}

impl View for SourceEntry {
    type V = SourceEntryV;

    open spec fn view(&self) -> SourceEntryV {
        entry_view(*self)
    }
}

impl View for SourceDir {
    type V = SourceDirV;

    open spec fn view(&self) -> SourceDirV {
        dir_view(*self)
    }
}

/// Every entry name occurring anywhere under an entry, the entry's own name
/// included.
pub open spec fn entry_names(e: SourceEntryV) -> Seq<Seq<char>>
    decreases e,
{
    seq![e.name] + match e.kind {
        EntryKindV::Directory(d) => dir_names(d),
        _ => Seq::empty(),
    }
}

/// Every entry name occurring anywhere under a directory.
pub open spec fn dir_names(d: SourceDirV) -> Seq<Seq<char>>
    decreases d,
{
    entries_names(d.entries)
}

/// Every entry name occurring anywhere under a listing.
pub open spec fn entries_names(es: Seq<SourceEntryV>) -> Seq<Seq<char>>
    decreases es,
{
    if es.len() == 0 {
        Seq::empty()
    } else {
        entry_names(es[0]) + entries_names(es.drop_first())
    }
}

/// What one listed entry contributes is contained in the whole listing's
/// names.
pub proof fn lemma_entries_names_contain(es: Seq<SourceEntryV>, i: int)
    requires
        0 <= i < es.len(),
    ensures
        entry_names(es[i]).to_set() <= entries_names(es).to_set(),
    decreases es,
{
    if i == 0 {
        assert forall|x: Seq<char>| entry_names(es[0]).to_set().contains(x) implies entries_names(
            es,
        ).to_set().contains(x) by {
            let k = choose|k: int| 0 <= k < entry_names(es[0]).len() && entry_names(es[0])[k] == x;
            assert(entries_names(es)[k] == x);
        }
    } else {
        lemma_entries_names_contain(es.drop_first(), i - 1);
        assert(es.drop_first()[i - 1] == es[i]);
        assert forall|x: Seq<char>| entry_names(es[i]).to_set().contains(x) implies entries_names(
            es,
        ).to_set().contains(x) by {
            assert(entries_names(es.drop_first()).to_set().contains(x));
            let k = choose|k: int|
                0 <= k < entries_names(es.drop_first()).len() && entries_names(es.drop_first())[k]
                    == x;
            assert(entries_names(es)[entry_names(es[0]).len() + k] == x);
        }
    }
}

/// A directory entry's own name is among the names it contributes.
pub proof fn lemma_entry_names_head(e: SourceEntryV)
    ensures
        entry_names(e).to_set().contains(e.name),
{
    assert(entry_names(e)[0] == e.name);
}

/// What a subdirectory contributes is contained in its entry's names.
pub proof fn lemma_entry_names_dir(e: SourceEntryV, d: SourceDirV)
    requires
        e.kind == EntryKindV::Directory(d),
    ensures
        dir_names(d).to_set() <= entry_names(e).to_set(),
{
    assert forall|x: Seq<char>| dir_names(d).to_set().contains(x) implies entry_names(
        e,
    ).to_set().contains(x) by {
        let k = choose|k: int| 0 <= k < dir_names(d).len() && dir_names(d)[k] == x;
        assert(entry_names(e)[1 + k] == x);
    }
}

/// An import-resolution failure. Import resolution is fail-fast: the first
/// failure anywhere in a chain aborts the whole import and propagates as one
/// of these, carrying span and path context for user-facing diagnostics.
pub enum ImportError {
    /// A directory could not be listed, or an entry's file type could not be
    /// determined. The underlying io error is the caller's to report; this
    /// layer keeps the span.
    DirectoryError(Span),
    /// An entry's file name does not convert to portable text.
    ConvertOsString(Span),
    /// A directory stood where a source file was expected; carries the
    /// entry's display name.
    ExpectedFile(String, Span),
    /// The external parser rejected the file; carries its message.
    ParseError(String, Span),
    /// The loaded program defines neither a circuit nor a function of the
    /// requested name; carries the name, the loaded program's name, and the
    /// file searched.
    UnknownSymbol { symbol: String, program: String, file: String, span: Span },
    /// No entry in the package's source directory matches the requested
    /// package name.
    UnknownPackage(String, Span),
    /// The named source file is already being resolved on the active import
    /// chain; resolving it again would recurse forever.
    CyclicImport(String, Span),
}

/// Ghost view of `ImportError`.
pub enum ImportErrorV {
    DirectoryError(Span),
    ConvertOsString(Span),
    ExpectedFile(Seq<char>, Span),
    ParseError(Seq<char>, Span),
    UnknownSymbol { symbol: Seq<char>, program: Seq<char>, file: Seq<char>, span: Span },
    UnknownPackage(Seq<char>, Span),
    CyclicImport(Seq<char>, Span),
}

impl View for ImportError {
    type V = ImportErrorV;

    open spec fn view(&self) -> ImportErrorV {
        match self {
            ImportError::DirectoryError(span) => ImportErrorV::DirectoryError(*span),
            ImportError::ConvertOsString(span) => ImportErrorV::ConvertOsString(*span),
            ImportError::ExpectedFile(name, span) => ImportErrorV::ExpectedFile(name@, *span),
            ImportError::ParseError(msg, span) => ImportErrorV::ParseError(msg@, *span),
            ImportError::UnknownSymbol { symbol, program, file, span } => {
                ImportErrorV::UnknownSymbol {
                    symbol: symbol@,
                    program: program@,
                    file: file@,
                    span: *span,
                }
            },
            ImportError::UnknownPackage(name, span) => ImportErrorV::UnknownPackage(name@, *span),
            ImportError::CyclicImport(name, span) => ImportErrorV::CyclicImport(name@, *span),
        }
    }
}

/// What loading one entry yields: the validated file name, or the exact
/// error, in the loader's checking order. The file type must be known, the
/// name must convert, the entry must be a file rather than a directory, and
/// the file must parse.
pub open spec fn load_outcome(e: SourceEntryV, span: Span) -> Result<Seq<char>, ImportErrorV> {
    if e.kind is Unknown {
        Err(ImportErrorV::DirectoryError(span))
    } else if !e.name_convertible {
        Err(ImportErrorV::ConvertOsString(span))
    } else {
        match e.kind {
            EntryKindV::Directory(_) => Err(ImportErrorV::ExpectedFile(e.name, span)),
            EntryKindV::File(ParseOutcomeV::Malformed(m)) => Err(
                ImportErrorV::ParseError(m, span),
            ),
            EntryKindV::File(ParseOutcomeV::Parsed(_)) => Ok(e.name),
            EntryKindV::Unknown => Err(ImportErrorV::DirectoryError(span)),
        }
    }
}

/// Validate a directory entry as a loadable source file and hand back its
/// file name, from which the loaded program's name is initialized. The
/// program itself is read with `loaded_program`.
pub fn parse_import_file(entry: &SourceEntry, span: &Span) -> (r: Result<String, ImportError>)
    ensures
        r matches Ok(name) ==> load_outcome(entry@, *span) == Ok::<Seq<char>, ImportErrorV>(name@)
            && name@ == entry@.name,
        r matches Err(e) ==> load_outcome(entry@, *span) == Err::<Seq<char>, ImportErrorV>(e@),
{
    match &entry.kind {
        EntryKind::Unknown => Err(ImportError::DirectoryError(*span)),
        _ => {
            if !entry.name_convertible {
                Err(ImportError::ConvertOsString(*span))
            } else {
                match &entry.kind {
                    EntryKind::Directory(_) => Err(
                        ImportError::ExpectedFile(entry.name.clone(), *span),
                    ),
                    EntryKind::File(ParseOutcome::Malformed(m)) => Err(
                        ImportError::ParseError(m.clone(), *span),
                    ),
                    EntryKind::File(ParseOutcome::Parsed(_)) => Ok(entry.name.clone()),
                    EntryKind::Unknown => Err(ImportError::DirectoryError(*span)),
                }
            }
        },
    }
}

/// The program a successfully loaded entry holds.
pub fn loaded_program(entry: &SourceEntry) -> (r: &Program)
    requires
        entry@.kind matches EntryKindV::File(p) && p is Parsed,
    ensures
        entry@.kind matches EntryKindV::File(ParseOutcomeV::Parsed(p)) && r@ == p,
{
    match &entry.kind {
        EntryKind::File(ParseOutcome::Parsed(p)) => p,
        _ => vstd::pervasive::unreached(),
    }
}

} // verus!
