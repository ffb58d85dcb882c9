//! The CabidlParser boundary and its implementation over a Filesystem.
use crate::filesystem::Filesystem;
use crate::model::{error_views, BoundaryView, ErrorView, System, SystemView, ValidationError};
use crate::parser::{parse_content, parse_spec, validate, validate_spec};
use crate::resolver::{parse, parse_file_spec, includable_parts};
use crate::text::{owned, push_str};
use vstd::prelude::*;

verus! {

pub open spec fn parsed_view(r: Result<System, Vec<ValidationError>>) -> Result<SystemView, Seq<ErrorView>> {
    match r {
        Ok(s) => Ok(s@),
        Err(es) => Err(error_views(es@)),
    }
}

/// The CabidlParser boundary trait.
///
/// Parses CABIDL markdown into a system model whose components hold shared
/// references to their boundaries. Each operation's outcome is described by
/// a spec function of the implementation.
pub trait CabidlParser {
    /// Whether the parser can resolve includes: finitely many files can be
    /// entered through them.
    spec fn ready(&self) -> bool;

    /// What parsing the file at `path` gives.
    spec fn parse_result(&self, path: Seq<char>) -> Result<SystemView, Seq<ErrorView>>;

    /// What parsing resolved content gives.
    spec fn content_result(&self, content: Seq<char>, file: Seq<char>) -> Result<SystemView, Seq<ErrorView>>;

    /// What checking a parsed system gives.
    spec fn validate_result(&self, system: SystemView, file: Seq<char>) -> Seq<ErrorView>;

    /// Parse a CABIDL markdown file into a system model.
    /// Resolves `<!-- @include -->` directives recursively.
    fn parse(&self, path: &str) -> (r: Result<System, Vec<ValidationError>>)
        requires
            self.ready(),
        ensures
            parsed_view(r) == self.parse_result(path@),
    ;

    /// Parse a CABIDL document from an already-resolved content string.
    fn parse_content(&self, content: &str, file: &str) -> (r: Result<System, Vec<ValidationError>>)
        ensures
            parsed_view(r) == self.content_result(content@, file@),
    ;

    /// Validate a parsed system model. Returns an empty list on success.
    fn validate(&self, system: &System, file: &str) -> (r: Vec<ValidationError>)
        ensures
            error_views(r@) == self.validate_result(system@, file@),
    ;
}

/// Implementation of the CabidlParser boundary: parsing and checking as
/// `parser` and `resolver` define them, over a Filesystem used for
/// includes and for the specification paths of boundaries.
pub struct CabidlParserImpl<F: Filesystem> {
    fs: F,
}

/// `Specification path '<p>' in boundary '<b>' does not exist`.
pub open spec fn missing_spec_path(p: Seq<char>, b: Seq<char>) -> Seq<char> {
    "Specification path '"@ + p + "' in boundary '"@ + b + "' does not exist"@
}

/// `Cannot resolve specification path '<p>' in boundary '<b>': <e>`.
pub open spec fn unresolved_spec_path(p: Seq<char>, b: Seq<char>, e: Seq<char>) -> Seq<char> {
    "Cannot resolve specification path '"@ + p + "' in boundary '"@ + b + "': "@ + e
}

/// One error per boundary, among the first `n`, whose specification path
/// cannot be resolved against the document's path or names no existing
/// file.
pub open spec fn spec_path_errors<F: Filesystem + ?Sized>(fs: &F, bs: Seq<BoundaryView>, n: int, file: Seq<char>) -> Seq<
    ErrorView,
>
    decreases n,
{
    if n <= 0 || n > bs.len() {
        Seq::empty()
    } else {
        let prev = spec_path_errors(fs, bs, n - 1, file);
        let b = bs[n - 1];
        match b.specification_path {
            Some(p) => match fs.resolve_result(file, p) {
                Ok(path) => if fs.exists_result(path) {
                    prev
                } else {
                    prev.push(ErrorView { message: missing_spec_path(p, b.name), file, line: b.line })
                },
                Err(e) => prev.push(
                    ErrorView { message: unresolved_spec_path(p, b.name, e), file, line: b.line },
                ),
            },
            None => prev,
        }
    }
}

impl<F: Filesystem> CabidlParserImpl<F> {
    /// The filesystem the parser reads through.
    pub closed spec fn filesystem(&self) -> F {
        self.fs
    }

    pub fn new(fs: F) -> (p: Self)
        ensures
            p.filesystem() == fs,
    {
        CabidlParserImpl { fs }
    }
}

impl<F: Filesystem> CabidlParser for CabidlParserImpl<F> {
    open spec fn ready(&self) -> bool {
        includable_parts(&self.filesystem()).finite()
    }

    open spec fn parse_result(&self, path: Seq<char>) -> Result<SystemView, Seq<ErrorView>> {
        parse_file_spec(&self.filesystem(), path)
    }

    open spec fn content_result(&self, content: Seq<char>, file: Seq<char>) -> Result<SystemView, Seq<ErrorView>> {
        parse_spec(content, file)
    }

    /// The model's own errors, then the specification path errors.
    open spec fn validate_result(&self, system: SystemView, file: Seq<char>) -> Seq<ErrorView> {
        validate_spec(system, file) + spec_path_errors(
            &self.filesystem(),
            system.boundaries,
            system.boundaries.len() as int,
            file,
        )
    }

    fn parse(&self, path: &str) -> (r: Result<System, Vec<ValidationError>>) {
        parse(&self.fs, path)
    }

    fn parse_content(&self, content: &str, file: &str) -> (r: Result<System, Vec<ValidationError>>) {
        parse_content(content, file)
    }

    fn validate(&self, system: &System, file: &str) -> (r: Vec<ValidationError>) {
        let mut errors = validate(system, file);
        let ghost e0 = error_views(errors@);
        let ghost bv = system@.boundaries;
        let fs: &F = &self.fs;
        let mut i: usize = 0;
        proof {
            assert(e0 + spec_path_errors(fs, bv, 0, file@) =~= e0);
        }
        while i < system.boundaries.len()
            invariant
                i <= system.boundaries@.len(),
                bv == system@.boundaries,
                *fs == self.filesystem(),
                error_views(errors@) == e0 + spec_path_errors(fs, bv, i as int, file@),
            decreases system.boundaries@.len() - i,
        {
            let b = &system.boundaries[i];
            assert(bv[i as int] == b@);
            let ghost before = error_views(errors@);
            match &b.specification_path {
                Some(spec_path) => {
                    match fs.resolve_path(file, spec_path.as_str()) {
                        Ok(path) => {
                            if !fs.file_exists(path.as_str()) {
                                let mut m = owned("Specification path '");
                                push_str(&mut m, spec_path.as_str());
                                push_str(&mut m, "' in boundary '");
                                push_str(&mut m, b.name.as_str());
                                push_str(&mut m, "' does not exist");
                                errors.push(ValidationError { message: m, file: owned(file), line: b.line });
                                assert(error_views(errors@) =~= before.push(
                                    ErrorView { message: missing_spec_path(spec_path@, b.name@), file: file@, line: b.line },
                                ));
                            }
                        },
                        Err(e) => {
                            let mut m = owned("Cannot resolve specification path '");
                            push_str(&mut m, spec_path.as_str());
                            push_str(&mut m, "' in boundary '");
                            push_str(&mut m, b.name.as_str());
                            push_str(&mut m, "': ");
                            push_str(&mut m, e.message.as_str());
                            errors.push(ValidationError { message: m, file: owned(file), line: b.line });
                            assert(error_views(errors@) =~= before.push(
                                ErrorView { message: unresolved_spec_path(spec_path@, b.name@, e.message@), file: file@, line: b.line },
                            ));
                        },
                    }
                },
                None => {},
            }
            i = i + 1;
        }
        errors
    }
}


/// Whether a boundary's specification path, if it has one, resolves against
/// the document's path to a file that exists.
pub open spec fn spec_path_ok<F: Filesystem + ?Sized>(fs: &F, b: BoundaryView, file: Seq<char>) -> bool {
    match b.specification_path {
        Some(p) => match fs.resolve_result(file, p) {
            Ok(path) => fs.exists_result(path),
            Err(_) => false,
        },
        None => true,
    }
}

proof fn lemma_spec_path_errors_empty<F: Filesystem + ?Sized>(fs: &F, bs: Seq<BoundaryView>, n: int, file: Seq<char>)
    requires
        0 <= n <= bs.len(),
    ensures
        spec_path_errors(fs, bs, n, file).len() == 0 <==> forall|i: int| 0 <= i < n ==> #[trigger] spec_path_ok(fs, bs[i], file),
    decreases n,
{
    if n > 0 {
        lemma_spec_path_errors_empty(fs, bs, n - 1, file);
        if !spec_path_ok(fs, bs[n - 1], file) {
            assert(spec_path_errors(fs, bs, n, file).len() > 0);
        }
    }
}

/// The parser finds a system valid exactly when every exposure is unset,
/// `external` or `internal`, no two components share a name, and every
/// specification path resolves to an existing file.
pub proof fn lemma_parser_validate_clean<F: Filesystem>(p: CabidlParserImpl<F>, system: SystemView, file: Seq<char>)
    ensures
        p.validate_result(system, file).len() == 0 <==> (validate_spec(system, file).len() == 0 && forall|i: int|
            0 <= i < system.boundaries.len() ==> #[trigger] spec_path_ok(&p.filesystem(), system.boundaries[i], file)),
{
    lemma_spec_path_errors_empty(&p.filesystem(), system.boundaries, system.boundaries.len() as int, file);
}

} // verus!
