//! The unlinked document model: the blocks of a CABIDL document as they
//! were read, with components naming their boundaries, and the checks run
//! on it (exposure values and boundary references).
use crate::filesystem::Filesystem;
use crate::markdown::yaml_blocks;
use crate::model::{error_views, opt_view, BoundaryView, ErrorView, ValidationError};
use crate::parser::{bad_exposure, declares_component, exposure_error, exposure_errors, exposure_ok, invalid_exposure, no_system_error, parse_scan, scan_blocks, undefined_boundary, ParseAcc, RawComponent, RawView};
use crate::resolver::{includable_parts, resolve_spec};
use crate::text::{owned, push_str, str_eq};
use vstd::prelude::*;

pub use crate::resolver::resolve;
pub use crate::yaml::{BoundariesYaml, BoundaryYaml, ComponentYaml, SpecificationYaml, SystemYaml};

verus! {

/// A parsed CABIDL document: its system block, and its boundary and
/// component blocks in document order.
#[derive(Debug)]
pub struct CabidlDocument {
    pub system: SystemBlock,
    pub boundaries: Vec<BoundaryBlock>,
    pub components: Vec<ComponentBlock>,
}

/// The system block of a document.
#[derive(Debug)]
pub struct SystemBlock {
    pub name: String,
    pub line: Option<usize>,
}

/// A boundary block of a document.
#[derive(Debug)]
pub struct BoundaryBlock {
    pub name: String,
    pub exposure: Option<String>,
    pub specification_path: Option<String>,
    pub specification_type: Option<String>,
    pub line: Option<usize>,
}

/// A component block of a document, naming the boundaries it provides and
/// requires.
#[derive(Debug)]
pub struct ComponentBlock {
    pub name: String,
    pub technology: Option<String>,
    pub provides: Vec<String>,
    pub requires: Vec<String>,
    pub line: Option<usize>,
}

pub struct SystemBlockView {
    pub name: Seq<char>,
    pub line: Option<usize>,
}

pub struct ComponentBlockView {
    pub name: Seq<char>,
    pub technology: Option<Seq<char>>,
    pub provides: Seq<Seq<char>>,
    pub requires: Seq<Seq<char>>,
    pub line: Option<usize>,
}

pub struct DocumentView {
    pub system: SystemBlockView,
    pub boundaries: Seq<BoundaryView>,
    pub components: Seq<ComponentBlockView>,
}

pub open spec fn names_of(v: Seq<String>) -> Seq<Seq<char>> {
    v.map_values(|s: String| s@)
}

impl View for SystemBlock {
    type V = SystemBlockView;

    open spec fn view(&self) -> SystemBlockView {
        SystemBlockView { name: self.name@, line: self.line }
    }
}

impl View for BoundaryBlock {
    type V = BoundaryView;

    open spec fn view(&self) -> BoundaryView {
        BoundaryView {
            name: self.name@,
            exposure: opt_view(self.exposure),
            specification_path: opt_view(self.specification_path),
            specification_type: opt_view(self.specification_type),
            line: self.line,
        }
    }
}

impl View for ComponentBlock {
    type V = ComponentBlockView;

    open spec fn view(&self) -> ComponentBlockView {
        ComponentBlockView {
            name: self.name@,
            technology: opt_view(self.technology),
            provides: names_of(self.provides@),
            requires: names_of(self.requires@),
            line: self.line,
        }
    }
}

impl View for CabidlDocument {
    type V = DocumentView;

    open spec fn view(&self) -> DocumentView {
        DocumentView {
            system: self.system@,
            boundaries: self.boundaries@.map_values(|b: BoundaryBlock| b@),
            components: self.components@.map_values(|c: ComponentBlock| c@),
        }
    }
}

/// A component block as the document records it.
pub open spec fn component_block(r: RawView) -> ComponentBlockView {
    ComponentBlockView {
        name: r.name,
        technology: r.technology,
        provides: r.provides,
        requires: r.requires,
        line: Some(r.line),
    }
}

/// What parsing a resolved document gives: every block in document order,
/// or every error found in the blocks. Boundary names may repeat and
/// references are not checked here.
pub open spec fn document_spec(content: Seq<char>, file: Seq<char>) -> Result<DocumentView, Seq<ErrorView>> {
    let blocks = yaml_blocks(content);
    let st = parse_scan(blocks, blocks.len() as int, file, false);
    let errors = if st.system is None && st.errors.len() == 0 {
        st.errors.push(no_system_error(file))
    } else {
        st.errors
    };
    if errors.len() > 0 {
        Err(errors)
    } else {
        Ok(
            DocumentView {
                system: SystemBlockView { name: st.system.unwrap().0, line: Some(st.system.unwrap().1) },
                boundaries: st.boundaries,
                components: st.raws.map_values(|r: RawView| component_block(r)),
            },
        )
    }
}

fn copy_names(v: &Vec<String>) -> (r: Vec<String>)
    ensures
        names_of(r@) == names_of(v@),
{
    let mut r: Vec<String> = Vec::new();
    let mut i: usize = 0;
    while i < v.len()
        invariant
            i <= v@.len(),
            names_of(r@) == names_of(v@).take(i as int),
        decreases v@.len() - i,
    {
        let ghost before = r@;
        let s = v[i].clone();
        r.push(s);
        assert(names_of(r@) =~= names_of(before).push(v@[i as int]@));
        assert(names_of(v@).take(i + 1) =~= names_of(v@).take(i as int).push(v@[i as int]@));
        i = i + 1;
    }
    assert(names_of(v@).take(v@.len() as int) =~= names_of(v@));
    r
}

fn copy_opt(o: &Option<String>) -> (r: Option<String>)
    ensures
        opt_view(r) == opt_view(*o),
{
    match o {
        Some(s) => Some(s.clone()),
        None => None,
    }
}

fn component_of(r: &RawComponent) -> (c: ComponentBlock)
    ensures
        c@ == component_block(r@),
{
    ComponentBlock {
        name: r.name.clone(),
        technology: copy_opt(&r.technology),
        provides: copy_names(&r.provides),
        requires: copy_names(&r.requires),
        line: Some(r.line),
    }
}

/// Parses a CABIDL document from an already-resolved content string into
/// its blocks, or the errors found in them.
pub fn parse_content(content: &str, file: &str) -> (r: Result<CabidlDocument, Vec<ValidationError>>)
    ensures
        match r {
            Ok(d) => document_spec(content@, file@) == Ok::<DocumentView, Seq<ErrorView>>(d@),
            Err(es) => document_spec(content@, file@) == Err::<DocumentView, Seq<ErrorView>>(
                error_views(es@),
            ),
        },
{
    let acc = scan_blocks(content, file, false);
    let ghost st = acc@;
    let ParseAcc { system_name, system_line, boundaries, raws, mut errors } = acc;
    if system_name.is_none() && errors.len() == 0 {
        let ghost before = errors@;
        errors.push(
            ValidationError {
                message: owned("No system block found in document (exactly one required)"),
                file: owned(file),
                line: None,
            },
        );
        assert(error_views(errors@) =~= error_views(before).push(no_system_error(file@)));
    }
    if errors.len() > 0 {
        return Err(errors);
    }
    let name = match system_name {
        Some(n) => n,
        None => {
            assert(false);
            return Err(errors);
        },
    };
    let mut bs: Vec<BoundaryBlock> = Vec::new();
    let mut i: usize = 0;
    while i < boundaries.len()
        invariant
            i <= boundaries@.len(),
            st.boundaries == crate::model::boundary_views(boundaries@),
            bs@.map_values(|b: BoundaryBlock| b@) == st.boundaries.take(i as int),
        decreases boundaries@.len() - i,
    {
        let b = &boundaries[i];
        assert(st.boundaries[i as int] == b@);
        let block = BoundaryBlock {
            name: b.name.clone(),
            exposure: copy_opt(&b.exposure),
            specification_path: copy_opt(&b.specification_path),
            specification_type: copy_opt(&b.specification_type),
            line: b.line,
        };
        let ghost before = bs@;
        bs.push(block);
        assert(bs@.map_values(|b: BoundaryBlock| b@) =~= before.map_values(|b: BoundaryBlock| b@).push(block@));
        assert(st.boundaries.take(i + 1) =~= st.boundaries.take(i as int).push(st.boundaries[i as int]));
        i = i + 1;
    }
    assert(st.boundaries.take(boundaries@.len() as int) =~= st.boundaries);
    let mut cs: Vec<ComponentBlock> = Vec::new();
    let mut j: usize = 0;
    while j < raws.len()
        invariant
            j <= raws@.len(),
            st.raws == raws@.map_values(|r: RawComponent| r@),
            cs@.map_values(|c: ComponentBlock| c@) == st.raws.map_values(
                |r: RawView| component_block(r),
            ).take(j as int),
        decreases raws@.len() - j,
    {
        let c = component_of(&raws[j]);
        let ghost before = cs@;
        let ghost all = st.raws.map_values(|r: RawView| component_block(r));
        assert(all[j as int] == component_block(raws@[j as int]@));
        cs.push(c);
        assert(cs@.map_values(|c: ComponentBlock| c@) =~= before.map_values(|c: ComponentBlock| c@).push(c@));
        assert(all.take(j + 1) =~= all.take(j as int).push(all[j as int]));
        j = j + 1;
    }
    assert(st.raws.map_values(|r: RawView| component_block(r)).take(raws@.len() as int) =~= st.raws.map_values(
        |r: RawView| component_block(r),
    ));
    let doc = CabidlDocument { system: SystemBlock { name, line: Some(system_line) }, boundaries: bs, components: cs };
    Ok(doc)
}

/// What parsing the document at `path` gives: the blocks of its resolved
/// text, or the errors of resolving or of parsing.
pub open spec fn parse_document_spec<F: Filesystem + ?Sized>(fs: &F, path: Seq<char>) -> Result<DocumentView, Seq<ErrorView>> {
    match resolve_spec(fs, path) {
        Err(e) => Err(e),
        Ok(content) => document_spec(content, path),
    }
}

/// Parses a CABIDL markdown file into its blocks: includes are resolved,
/// then the unified content is parsed.
pub fn parse<F: Filesystem + ?Sized>(fs: &F, path: &str) -> (r: Result<CabidlDocument, Vec<ValidationError>>)
    requires
        includable_parts(fs).finite(),
    ensures
        match r {
            Ok(d) => parse_document_spec(fs, path@) == Ok::<DocumentView, Seq<ErrorView>>(d@),
            Err(es) => parse_document_spec(fs, path@) == Err::<DocumentView, Seq<ErrorView>>(
                error_views(es@),
            ),
        },
{
    let content = resolve(fs, path)?;
    parse_content(content.as_str(), path)
}

// ---------------------------------------------------------------------------
// Checking a document
// ---------------------------------------------------------------------------
/// Whether some boundary bears this name.
pub open spec fn defined(bs: Seq<BoundaryView>, name: Seq<char>) -> bool {
    exists|i: int| 0 <= i < bs.len() && #[trigger] bs[i].name == name
}

/// One error per name, among the first `n`, that no boundary bears.
pub open spec fn undefined_errors(
    bs: Seq<BoundaryView>,
    c: ComponentBlockView,
    names: Seq<Seq<char>>,
    verb: Seq<char>,
    n: int,
    file: Seq<char>,
) -> Seq<ErrorView>
    decreases n,
{
    if n <= 0 || n > names.len() {
        Seq::empty()
    } else {
        let prev = undefined_errors(bs, c, names, verb, n - 1, file);
        if defined(bs, names[n - 1]) {
            prev
        } else {
            prev.push(
                ErrorView { message: undefined_boundary(c.name, verb, names[n - 1]), file, line: c.line },
            )
        }
    }
}

/// The reference errors of the first `n` components: for each, the names it
/// provides and then those it requires that no boundary bears.
pub open spec fn reference_errors(
    bs: Seq<BoundaryView>,
    cs: Seq<ComponentBlockView>,
    n: int,
    file: Seq<char>,
) -> Seq<ErrorView>
    decreases n,
{
    if n <= 0 || n > cs.len() {
        Seq::empty()
    } else {
        let c = cs[n - 1];
        reference_errors(bs, cs, n - 1, file) + undefined_errors(
            bs,
            c,
            c.provides,
            "provides"@,
            c.provides.len() as int,
            file,
        ) + undefined_errors(bs, c, c.requires, "requires"@, c.requires.len() as int, file)
    }
}

/// What checking a document reports: the exposure errors in boundary
/// order, then the undefined boundary references in component order.
pub open spec fn validate_document_spec(doc: DocumentView, file: Seq<char>) -> Seq<ErrorView> {
    exposure_errors(doc.boundaries, doc.boundaries.len() as int, file) + reference_errors(
        doc.boundaries,
        doc.components,
        doc.components.len() as int,
        file,
    )
}

fn is_defined(bs: &Vec<BoundaryBlock>, name: &str) -> (r: bool)
    ensures
        r == defined(bs@.map_values(|b: BoundaryBlock| b@), name@),
{
    let ghost bv = bs@.map_values(|b: BoundaryBlock| b@);
    let mut i: usize = 0;
    while i < bs.len()
        invariant
            i <= bs@.len(),
            bv == bs@.map_values(|b: BoundaryBlock| b@),
            forall|k: int| 0 <= k < i ==> #[trigger] bv[k].name != name@,
        decreases bs@.len() - i,
    {
        assert(bv[i as int] == bs@[i as int]@);
        if str_eq(bs[i].name.as_str(), name) {
            assert(bv[i as int].name == name@);
            return true;
        }
        i = i + 1;
    }
    false
}

fn check_references(
    doc: &CabidlDocument,
    c: &ComponentBlock,
    names: &Vec<String>,
    verb: &str,
    errors: &mut Vec<ValidationError>,
    file: &str,
)
    ensures
        error_views(final(errors)@) == error_views(old(errors)@) + undefined_errors(
            doc@.boundaries,
            c@,
            names_of(names@),
            verb@,
            names@.len() as int,
            file@,
        ),
{
    let ghost e0 = error_views(errors@);
    let ghost nv = names_of(names@);
    let mut i: usize = 0;
    proof {
        assert(e0 + undefined_errors(doc@.boundaries, c@, nv, verb@, 0, file@) =~= e0);
    }
    while i < names.len()
        invariant
            i <= names@.len(),
            nv == names_of(names@),
            error_views(errors@) == e0 + undefined_errors(doc@.boundaries, c@, nv, verb@, i as int, file@),
        decreases names@.len() - i,
    {
        assert(nv[i as int] == names@[i as int]@);
        if !is_defined(&doc.boundaries, names[i].as_str()) {
            let mut m = owned("Component '");
            push_str(&mut m, c.name.as_str());
            push_str(&mut m, "' ");
            push_str(&mut m, verb);
            push_str(&mut m, " undefined boundary '");
            push_str(&mut m, names[i].as_str());
            push_str(&mut m, "'");
            let ghost before = errors@;
            let e = ValidationError { message: m, file: owned(file), line: c.line };
            errors.push(e);
            assert(error_views(errors@) =~= error_views(before).push(e@));
        }
        assert(error_views(errors@) =~= e0 + undefined_errors(doc@.boundaries, c@, nv, verb@, i + 1, file@));
        i = i + 1;
    }
}

/// Checks a parsed document: each boundary's exposure value must be
/// `external` or `internal`, and every boundary a component provides or
/// requires must be defined.
pub fn validate(doc: &CabidlDocument, file: &str) -> (errors: Vec<ValidationError>)
    ensures
        error_views(errors@) == validate_document_spec(doc@, file@),
{
    let ghost bv = doc@.boundaries;
    let ghost cv = doc@.components;
    let mut errors: Vec<ValidationError> = Vec::new();
    let mut i: usize = 0;
    proof {
        assert(error_views(errors@) =~= Seq::<ErrorView>::empty());
    }
    while i < doc.boundaries.len()
        invariant
            i <= doc.boundaries@.len(),
            bv == doc@.boundaries,
            error_views(errors@) == exposure_errors(bv, i as int, file@),
        decreases doc.boundaries@.len() - i,
    {
        let b = &doc.boundaries[i];
        assert(bv[i as int] == b@);
        match &b.exposure {
            Some(e) => {
                if !str_eq(e.as_str(), "external") && !str_eq(e.as_str(), "internal") {
                    let mut m = owned("Invalid exposure value '");
                    push_str(&mut m, e.as_str());
                    push_str(&mut m, "' in boundary '");
                    push_str(&mut m, b.name.as_str());
                    push_str(&mut m, "' (must be 'external' or 'internal')");
                    let ghost before = errors@;
                    errors.push(ValidationError { message: m, file: owned(file), line: b.line });
                    assert(error_views(errors@) =~= error_views(before).push(
                        ErrorView { message: invalid_exposure(e@, b.name@), file: file@, line: b.line },
                    ));
                }
            },
            None => {},
        }
        i = i + 1;
    }
    let ghost exp = error_views(errors@);
    let mut j: usize = 0;
    proof {
        assert(exp + reference_errors(bv, cv, 0, file@) =~= exp);
    }
    while j < doc.components.len()
        invariant
            j <= doc.components@.len(),
            bv == doc@.boundaries,
            cv == doc@.components,
            error_views(errors@) == exp + reference_errors(bv, cv, j as int, file@),
        decreases doc.components@.len() - j,
    {
        let c = &doc.components[j];
        assert(cv[j as int] == c@);
        check_references(doc, c, &c.provides, "provides", &mut errors, file);
        check_references(doc, c, &c.requires, "requires", &mut errors, file);
        assert(error_views(errors@) =~= exp + reference_errors(bv, cv, j + 1, file@));
        j = j + 1;
    }
    errors
}


proof fn lemma_undefined_errors_empty(
    bs: Seq<BoundaryView>,
    c: ComponentBlockView,
    names: Seq<Seq<char>>,
    verb: Seq<char>,
    n: int,
    file: Seq<char>,
)
    requires
        0 <= n <= names.len(),
    ensures
        undefined_errors(bs, c, names, verb, n, file).len() == 0 <==> forall|k: int|
            0 <= k < n ==> #[trigger] defined(bs, names[k]),
    decreases n,
{
    if n > 0 {
        lemma_undefined_errors_empty(bs, c, names, verb, n - 1, file);
        if !defined(bs, names[n - 1]) {
            assert(undefined_errors(bs, c, names, verb, n, file).len() > 0);
        }
    }
}

/// Whether every boundary a component block names is defined.
pub open spec fn references_defined(bs: Seq<BoundaryView>, c: ComponentBlockView) -> bool {
    &&& forall|k: int| 0 <= k < c.provides.len() ==> #[trigger] defined(bs, c.provides[k])
    &&& forall|k: int| 0 <= k < c.requires.len() ==> #[trigger] defined(bs, c.requires[k])
}

proof fn lemma_reference_errors_empty(bs: Seq<BoundaryView>, cs: Seq<ComponentBlockView>, n: int, file: Seq<char>)
    requires
        0 <= n <= cs.len(),
    ensures
        reference_errors(bs, cs, n, file).len() == 0 <==> forall|i: int|
            0 <= i < n ==> #[trigger] references_defined(bs, cs[i]),
    decreases n,
{
    if n > 0 {
        let c = cs[n - 1];
        lemma_reference_errors_empty(bs, cs, n - 1, file);
        lemma_undefined_errors_empty(bs, c, c.provides, "provides"@, c.provides.len() as int, file);
        lemma_undefined_errors_empty(bs, c, c.requires, "requires"@, c.requires.len() as int, file);
        let a = undefined_errors(bs, c, c.provides, "provides"@, c.provides.len() as int, file);
        let b = undefined_errors(bs, c, c.requires, "requires"@, c.requires.len() as int, file);
        let prev = reference_errors(bs, cs, n - 1, file);
        assert(reference_errors(bs, cs, n, file) == prev + a + b);
        assert(references_defined(bs, cs[n - 1]) <==> (a.len() == 0 && b.len() == 0));
        if forall|i: int| 0 <= i < n ==> #[trigger] references_defined(bs, cs[i]) {
            assert(references_defined(bs, cs[n - 1]));
        }
    }
}

/// A document passes validation exactly when every boundary's exposure is
/// unset, `external` or `internal`, and every boundary that a component
/// provides or requires is defined.
pub proof fn lemma_document_clean(doc: DocumentView, file: Seq<char>)
    ensures
        validate_document_spec(doc, file).len() == 0 <==> ((forall|i: int|
            0 <= i < doc.boundaries.len() ==> #[trigger] exposure_ok(doc.boundaries[i])) && (forall|i: int|
            0 <= i < doc.components.len() ==> #[trigger] references_defined(doc.boundaries, doc.components[i]))),
{
    crate::parser::lemma_exposure_errors_empty(doc.boundaries, doc.boundaries.len() as int, file);
    lemma_reference_errors_empty(doc.boundaries, doc.components, doc.components.len() as int, file);
}


/// Each component block of a parsed document is one that a block of the
/// document declares: that block's YAML decodes, as a `component`, to the
/// component's name, technology and boundary names, and the block starts
/// at its line.
pub proof fn lemma_document_components_come_from_blocks(content: Seq<char>, file: Seq<char>)
    ensures
        document_spec(content, file) matches Ok(doc) ==> forall|i: int|
            #![trigger doc.components[i]]
            0 <= i < doc.components.len() ==> exists|j: int|
                0 <= j < yaml_blocks(content).len() && #[trigger] declares_component(
                    yaml_blocks(content)[j],
                    doc.components[i].name,
                    doc.components[i].technology,
                    doc.components[i].provides,
                    doc.components[i].requires,
                    doc.components[i].line,
                ),
{
    let blocks = yaml_blocks(content);
    let st = parse_scan(blocks, blocks.len() as int, file, false);
    crate::parser::lemma_scan_raws(blocks, blocks.len() as int, file, false);
    if document_spec(content, file) is Ok {
        let cs = st.raws.map_values(|r: RawView| component_block(r));
        assert forall|i: int| #![trigger cs[i]] 0 <= i < cs.len() implies exists|j: int|
            0 <= j < blocks.len() && #[trigger] declares_component(
                blocks[j],
                cs[i].name,
                cs[i].technology,
                cs[i].provides,
                cs[i].requires,
                cs[i].line,
            ) by {
            assert(cs[i] == component_block(st.raws[i]));
            let j = choose|j: int|
                0 <= j < blocks.len() && #[trigger] declares_component(
                    blocks[j],
                    st.raws[i].name,
                    st.raws[i].technology,
                    st.raws[i].provides,
                    st.raws[i].requires,
                    Some(st.raws[i].line),
                );
            assert(declares_component(blocks[j], cs[i].name, cs[i].technology, cs[i].provides, cs[i].requires, cs[i].line));
        }
    }
}

/// Checking a document reports every bad exposure: for each boundary
/// whose exposure is set to a value other than `external` or `internal`,
/// the report holds the error naming that value and that boundary, at the
/// boundary's line; and the report holds as many errors as there are such
/// boundaries and undefined references together.
pub proof fn lemma_document_reports_each_exposure(doc: DocumentView, file: Seq<char>)
    ensures
        forall|k: int|
            0 <= k < doc.boundaries.len() && #[trigger] bad_exposure(doc.boundaries[k]) ==> exists|j: int|
                0 <= j < validate_document_spec(doc, file).len() && #[trigger] validate_document_spec(doc, file)[j]
                    == exposure_error(doc.boundaries[k], file),
        validate_document_spec(doc, file).len() == doc.boundaries.filter(|b: BoundaryView| bad_exposure(b)).len()
            + reference_errors(doc.boundaries, doc.components, doc.components.len() as int, file).len(),
{
    let bs = doc.boundaries;
    let n = bs.len() as int;
    crate::parser::lemma_exposure_errors_each(bs, n, file);
    assert(bs.take(n) =~= bs);
    let exp = exposure_errors(bs, n, file);
    let all = validate_document_spec(doc, file);
    assert forall|k: int| 0 <= k < n && #[trigger] bad_exposure(bs[k]) implies exists|j: int|
        0 <= j < all.len() && #[trigger] all[j] == exposure_error(bs[k], file) by {
        let j = choose|j: int| 0 <= j < exp.len() && #[trigger] exp[j] == exposure_error(bs[k], file);
        assert(all[j] == exp[j]);
    }
}

} // verus!
