//! Parsing a resolved CABIDL document into the linked architecture model,
//! and checking the model.
use crate::markdown::{block_views, extract_yaml_blocks, yaml_blocks};
use crate::model::{
    boundary_views, component_views, error_views, share, Boundary, BoundaryView, Component,
    ComponentView, ErrorView, System, SystemView, ValidationError,
};
use crate::text::{owned, push_str, str_eq};
use crate::yaml::{ComponentYamlView, block_kind, boundary_yaml, component_yaml, decode_boundary, decode_component, decode_system, kind_of, load_yaml, opt_str_view, system_yaml, yaml_document};
use std::sync::Arc;
use vstd::prelude::*;

verus! {

/// A component block read, before its boundary names are linked.
pub struct RawView {
    pub name: Seq<char>,
    pub technology: Option<Seq<char>>,
    pub provides: Seq<Seq<char>>,
    pub requires: Seq<Seq<char>>,
    pub line: usize,
}

/// Where parsing stands after some blocks.
pub struct ParseState {
    /// Name and line of the system block, once one is read.
    pub system: Option<(Seq<char>, usize)>,
    pub boundaries: Seq<BoundaryView>,
    pub raws: Seq<RawView>,
    pub errors: Seq<ErrorView>,
}

pub open spec fn parse_start() -> ParseState {
    ParseState {
        system: None,
        boundaries: Seq::empty(),
        raws: Seq::empty(),
        errors: Seq::empty(),
    }
}

pub open spec fn located(message: Seq<char>, file: Seq<char>, line: usize) -> ErrorView {
    ErrorView { message, file, line: Some(line) }
}

pub open spec fn with_error(st: ParseState, e: ErrorView) -> ParseState {
    ParseState { errors: st.errors.push(e), ..st }
}

/// The first boundary, from `i` on, with the given name.
pub open spec fn find_boundary(bs: Seq<BoundaryView>, name: Seq<char>, i: int) -> Option<BoundaryView>
    decreases bs.len() - i,
{
    if i < 0 || i >= bs.len() {
        None
    } else if bs[i].name == name {
        Some(bs[i])
    } else {
        find_boundary(bs, name, i + 1)
    }
}

/// One YAML block, of text `text` at line `line`: its YAML is loaded, its
/// `kind` decides how it is decoded, and what it declares is recorded or an
/// error is. With `unique`, a boundary whose name an earlier one bears is
/// an error.
pub open spec fn block_step(st: ParseState, text: Seq<char>, line: usize, file: Seq<char>, unique: bool) -> ParseState {
    match yaml_document(text) {
        Err(e) => with_error(st, located("Invalid YAML: "@ + e, file, line)),
        Ok(v) => match kind_of(v) {
            None => with_error(st, located("YAML block missing required 'kind' field"@, file, line)),
            Some(k) => if k == "system"@ {
                match decode_system(v) {
                    Ok(s) => if st.system is Some {
                        with_error(
                            st,
                            located(
                                "Multiple system blocks found (exactly one required)"@,
                                file,
                                line,
                            ),
                        )
                    } else {
                        ParseState { system: Some((s.name, line)), ..st }
                    },
                    Err(e) => with_error(st, located("Invalid system block: "@ + e, file, line)),
                }
            } else if k == "boundary"@ {
                match decode_boundary(v) {
                    Ok(b) => if unique && find_boundary(st.boundaries, b.name, 0) is Some {
                        with_error(
                            st,
                            located("Duplicate boundary name '"@ + b.name + "'"@, file, line),
                        )
                    } else {
                        ParseState {
                            boundaries: st.boundaries.push(
                                BoundaryView {
                                    name: b.name,
                                    exposure: b.exposure,
                                    specification_path: match b.specification {
                                        Some(s) => s.path,
                                        None => None,
                                    },
                                    specification_type: match b.specification {
                                        Some(s) => s.type_description,
                                        None => None,
                                    },
                                    line: Some(line),
                                },
                            ),
                            ..st
                        }
                    },
                    Err(e) => with_error(st, located("Invalid boundary block: "@ + e, file, line)),
                }
            } else if k == "component"@ {
                match decode_component(v) {
                    Ok(c) => ParseState {
                        raws: st.raws.push(
                            RawView {
                                name: c.name,
                                technology: c.technology,
                                provides: match c.boundaries {
                                    Some(bb) => match bb.provides {
                                        Some(p) => p,
                                        None => Seq::empty(),
                                    },
                                    None => Seq::empty(),
                                },
                                requires: match c.boundaries {
                                    Some(bb) => match bb.requires {
                                        Some(p) => p,
                                        None => Seq::empty(),
                                    },
                                    None => Seq::empty(),
                                },
                                line,
                            },
                        ),
                        ..st
                    },
                    Err(e) => with_error(st, located("Invalid component block: "@ + e, file, line)),
                }
            } else {
                with_error(st, located("Unknown block kind: '"@ + k + "'"@, file, line))
            },
        },
    }
}

/// The state after the first `n` blocks.
pub open spec fn parse_scan(blocks: Seq<(Seq<char>, usize)>, n: int, file: Seq<char>, unique: bool) -> ParseState
    decreases n,
{
    if n <= 0 || n > blocks.len() {
        parse_start()
    } else {
        block_step(parse_scan(blocks, n - 1, file, unique), blocks[n - 1].0, blocks[n - 1].1, file, unique)
    }
}

/// `Component '<c>' <verb> undefined boundary '<b>'`.
pub open spec fn undefined_boundary(component: Seq<char>, verb: Seq<char>, boundary: Seq<char>) -> Seq<
    char,
> {
    "Component '"@ + component + "' "@ + verb + " undefined boundary '"@ + boundary + "'"@
}

/// Links the first `n` boundary names of a component: the boundaries
/// found, and the errors after those given, one per name not found.
pub open spec fn link_names(
    bs: Seq<BoundaryView>,
    raw: RawView,
    names: Seq<Seq<char>>,
    verb: Seq<char>,
    n: int,
    errors: Seq<ErrorView>,
    file: Seq<char>,
) -> (Seq<BoundaryView>, Seq<ErrorView>)
    decreases n,
{
    if n <= 0 || n > names.len() {
        (Seq::empty(), errors)
    } else {
        let (found, errs) = link_names(bs, raw, names, verb, n - 1, errors, file);
        match find_boundary(bs, names[n - 1], 0) {
            Some(b) => (found.push(b), errs),
            None => (
                found,
                errs.push(located(undefined_boundary(raw.name, verb, names[n - 1]), file, raw.line)),
            ),
        }
    }
}

/// Links one component: its provided, then its required boundaries.
pub open spec fn link_component(
    bs: Seq<BoundaryView>,
    raw: RawView,
    errors: Seq<ErrorView>,
    file: Seq<char>,
) -> (ComponentView, Seq<ErrorView>) {
    let (provides, e1) = link_names(
        bs,
        raw,
        raw.provides,
        "provides"@,
        raw.provides.len() as int,
        errors,
        file,
    );
    let (required, e2) = link_names(
        bs,
        raw,
        raw.requires,
        "requires"@,
        raw.requires.len() as int,
        e1,
        file,
    );
    (
        ComponentView {
            name: raw.name,
            technology: raw.technology,
            provides,
            requires: required,
            line: Some(raw.line),
        },
        e2,
    )
}

/// Links the first `n` components.
pub open spec fn link_all(
    bs: Seq<BoundaryView>,
    raws: Seq<RawView>,
    n: int,
    errors: Seq<ErrorView>,
    file: Seq<char>,
) -> (Seq<ComponentView>, Seq<ErrorView>)
    decreases n,
{
    if n <= 0 || n > raws.len() {
        (Seq::empty(), errors)
    } else {
        let (cs, errs) = link_all(bs, raws, n - 1, errors, file);
        let (c, errs2) = link_component(bs, raws[n - 1], errs, file);
        (cs.push(c), errs2)
    }
}

pub open spec fn no_system_error(file: Seq<char>) -> ErrorView {
    ErrorView {
        message: "No system block found in document (exactly one required)"@,
        file,
        line: None,
    }
}

/// What parsing a resolved document gives: the linked system, or every
/// error found, in the order of the blocks (block errors first, then one
/// per undefined boundary name, component by component).
pub open spec fn parse_spec(content: Seq<char>, file: Seq<char>) -> Result<SystemView, Seq<ErrorView>> {
    let blocks = yaml_blocks(content);
    let st = parse_scan(blocks, blocks.len() as int, file, true);
    let errors0 = if st.system is None && st.errors.len() == 0 {
        st.errors.push(no_system_error(file))
    } else {
        st.errors
    };
    let (components, errors) = link_all(st.boundaries, st.raws, st.raws.len() as int, errors0, file);
    if errors.len() > 0 {
        Err(errors)
    } else {
        Ok(
            SystemView {
                name: st.system.unwrap().0,
                boundaries: st.boundaries,
                components,
                line: Some(st.system.unwrap().1),
            },
        )
    }
}

/// A component block read, before its boundary names are linked.
pub struct RawComponent {
    pub name: String,
    pub technology: Option<String>,
    pub provides: Vec<String>,
    pub requires: Vec<String>,
    pub line: usize,
}

impl View for RawComponent {
    type V = RawView;

    open spec fn view(&self) -> RawView {
        RawView {
            name: self.name@,
            technology: opt_str_view(self.technology),
            provides: self.provides@.map_values(|s: String| s@),
            requires: self.requires@.map_values(|s: String| s@),
            line: self.line,
        }
    }
}

/// The parse state, held by the parser while it reads the blocks.
pub struct ParseAcc {
    pub system_name: Option<String>,
    pub system_line: usize,
    pub boundaries: Vec<Arc<Boundary>>,
    pub raws: Vec<RawComponent>,
    pub errors: Vec<ValidationError>,
}

impl View for ParseAcc {
    type V = ParseState;

    open spec fn view(&self) -> ParseState {
        ParseState {
            system: match self.system_name {
                Some(n) => Some((n@, self.system_line)),
                None => None,
            },
            boundaries: boundary_views(self.boundaries@),
            raws: self.raws@.map_values(|r: RawComponent| r@),
            errors: error_views(self.errors@),
        }
    }
}

fn error_at(message: String, file: &str, line: usize) -> (e: ValidationError)
    ensures
        e@ == located(message@, file@, line),
{
    ValidationError { message, file: owned(file), line: Some(line) }
}

/// The index of the first boundary with the given name.
fn boundary_index(bs: &Vec<Arc<Boundary>>, name: &String) -> (r: Option<usize>)
    ensures
        match r {
            Some(i) => i < bs@.len() && find_boundary(boundary_views(bs@), name@, 0) == Some(
                bs@[i as int]@,
            ),
            None => find_boundary(boundary_views(bs@), name@, 0) is None,
        },
{
    let ghost bv = boundary_views(bs@);
    let mut i: usize = 0;
    while i < bs.len()
        invariant
            i <= bs@.len(),
            bv == boundary_views(bs@),
            find_boundary(bv, name@, i as int) == find_boundary(bv, name@, 0),
        decreases bs@.len() - i,
    {
        if str_eq(bs[i].name.as_str(), name.as_str()) {
            return Some(i);
        }
        i = i + 1;
    }
    None
}

impl ParseAcc {
    fn push_error(&mut self, message: String, file: &str, line: usize)
        ensures
            final(self)@ == with_error(old(self)@, located(message@, file@, line)),
    {
        let ghost before = self.errors@;
        self.errors.push(error_at(message, file, line));
        assert(error_views(self.errors@) =~= error_views(before).push(located(message@, file@, line)));
    }

    pub(crate) fn block(&mut self, text: &String, line: usize, file: &str, unique: bool)
        ensures
            final(self)@ == block_step(old(self)@, text@, line, file@, unique),
    {
        match load_yaml(text.as_str()) {
            Err(e) => {
                let mut m = owned("Invalid YAML: ");
                push_str(&mut m, e.as_str());
                self.push_error(m, file, line);
            },
            Ok(v) => {
                match block_kind(&v) {
                    None => {
                        self.push_error(owned("YAML block missing required 'kind' field"), file, line);
                    },
                    Some(k) => {
                        if str_eq(k.as_str(), "system") {
                            self.system_block(&v, line, file);
                        } else if str_eq(k.as_str(), "boundary") {
                            self.boundary_block(&v, line, file, unique);
                        } else if str_eq(k.as_str(), "component") {
                            self.component_block(&v, line, file);
                        } else {
                            let mut m = owned("Unknown block kind: '");
                            push_str(&mut m, k.as_str());
                            push_str(&mut m, "'");
                            self.push_error(m, file, line);
                        }
                    },
                }
            },
        }
    }

    fn system_block(&mut self, v: &crate::yaml::YamlValue, line: usize, file: &str)
        ensures
            final(self)@ == (match decode_system(*v) {
                Ok(s) => if old(self)@.system is Some {
                    with_error(
                        old(self)@,
                        located("Multiple system blocks found (exactly one required)"@, file@, line),
                    )
                } else {
                    ParseState { system: Some((s.name, line)), ..old(self)@ }
                },
                Err(e) => with_error(old(self)@, located("Invalid system block: "@ + e, file@, line)),
            }),
    {
        match system_yaml(v) {
            Ok(s) => {
                if self.system_name.is_some() {
                    self.push_error(
                        owned("Multiple system blocks found (exactly one required)"),
                        file,
                        line,
                    );
                } else {
                    self.system_name = Some(s.name);
                    self.system_line = line;
                }
            },
            Err(e) => {
                let mut m = owned("Invalid system block: ");
                push_str(&mut m, e.as_str());
                self.push_error(m, file, line);
            },
        }
    }

    fn boundary_block(&mut self, v: &crate::yaml::YamlValue, line: usize, file: &str, unique: bool)
        ensures
            final(self)@ == (match decode_boundary(*v) {
                Ok(b) => if unique && find_boundary(old(self)@.boundaries, b.name, 0) is Some {
                    with_error(
                        old(self)@,
                        located("Duplicate boundary name '"@ + b.name + "'"@, file@, line),
                    )
                } else {
                    ParseState {
                        boundaries: old(self)@.boundaries.push(
                            BoundaryView {
                                name: b.name,
                                exposure: b.exposure,
                                specification_path: match b.specification {
                                    Some(s) => s.path,
                                    None => None,
                                },
                                specification_type: match b.specification {
                                    Some(s) => s.type_description,
                                    None => None,
                                },
                                line: Some(line),
                            },
                        ),
                        ..old(self)@
                    }
                },
                Err(e) => with_error(old(self)@, located("Invalid boundary block: "@ + e, file@, line)),
            }),
    {
        match boundary_yaml(v) {
            Ok(b) => {
                if unique && boundary_index(&self.boundaries, &b.name).is_some() {
                    let mut m = owned("Duplicate boundary name '");
                    push_str(&mut m, b.name.as_str());
                    push_str(&mut m, "'");
                    self.push_error(m, file, line);
                } else {
                    let (path, ty) = match b.specification {
                        Some(s) => (s.path, s.type_description),
                        None => (None, None),
                    };
                    let boundary = Arc::new(
                        Boundary {
                            name: b.name,
                            exposure: b.exposure,
                            specification_path: path,
                            specification_type: ty,
                            line: Some(line),
                        },
                    );
                    let ghost before = self.boundaries@;
                    self.boundaries.push(boundary);
                    assert(boundary_views(self.boundaries@) =~= boundary_views(before).push(
                        boundary@,
                    ));
                }
            },
            Err(e) => {
                let mut m = owned("Invalid boundary block: ");
                push_str(&mut m, e.as_str());
                self.push_error(m, file, line);
            },
        }
    }

    fn component_block(&mut self, v: &crate::yaml::YamlValue, line: usize, file: &str)
        ensures
            final(self)@ == (match decode_component(*v) {
                Ok(c) => ParseState {
                    raws: old(self)@.raws.push(
                        RawView {
                            name: c.name,
                            technology: c.technology,
                            provides: match c.boundaries {
                                Some(bb) => match bb.provides {
                                    Some(p) => p,
                                    None => Seq::empty(),
                                },
                                None => Seq::empty(),
                            },
                            requires: match c.boundaries {
                                Some(bb) => match bb.requires {
                                    Some(p) => p,
                                    None => Seq::empty(),
                                },
                                None => Seq::empty(),
                            },
                            line,
                        },
                    ),
                    ..old(self)@
                },
                Err(e) => with_error(old(self)@, located("Invalid component block: "@ + e, file@, line)),
            }),
    {
        match component_yaml(v) {
            Ok(c) => {
                let (provided, required) = match c.boundaries {
                    Some(bb) => (
                        match bb.provides {
                            Some(p) => p,
                            None => Vec::new(),
                        },
                        match bb.requires {
                            Some(p) => p,
                            None => Vec::new(),
                        },
                    ),
                    None => (Vec::new(), Vec::new()),
                };
                let raw = RawComponent {
                    name: c.name,
                    technology: c.technology,
                    provides: provided,
                    requires: required,
                    line,
                };
                proof {
                    let e: Seq<String> = Seq::empty();
                    assert(e.map_values(|s: String| s@) =~= Seq::<Seq<char>>::empty());
                }
                let ghost before = self.raws@;
                self.raws.push(raw);
                assert(self.raws@.map_values(|r: RawComponent| r@) =~= before.map_values(
                    |r: RawComponent| r@,
                ).push(raw@));
            },
            Err(e) => {
                let mut m = owned("Invalid component block: ");
                push_str(&mut m, e.as_str());
                self.push_error(m, file, line);
            },
        }
    }
}

/// Links a list of boundary names of a component to the boundaries that
/// bear them, recording an error for each name that none bears.
fn link_list(
    bs: &Vec<Arc<Boundary>>,
    raw: &RawComponent,
    names: &Vec<String>,
    verb: &str,
    errors: &mut Vec<ValidationError>,
    file: &str,
) -> (found: Vec<Arc<Boundary>>)
    ensures
        (boundary_views(found@), error_views(final(errors)@)) == link_names(
            boundary_views(bs@),
            raw@,
            names@.map_values(|s: String| s@),
            verb@,
            names@.len() as int,
            error_views(old(errors)@),
            file@,
        ),
        final(errors)@.len() >= old(errors)@.len(),
{
    let ghost nv = names@.map_values(|s: String| s@);
    let ghost e0 = error_views(errors@);
    let ghost bv = boundary_views(bs@);
    let mut found: Vec<Arc<Boundary>> = Vec::new();
    let mut j: usize = 0;
    proof {
        assert(boundary_views(found@) =~= Seq::<BoundaryView>::empty());
    }
    while j < names.len()
        invariant
            j <= names@.len(),
            nv == names@.map_values(|s: String| s@),
            bv == boundary_views(bs@),
            errors@.len() >= old(errors)@.len(),
            e0 == error_views(old(errors)@),
            (boundary_views(found@), error_views(errors@)) == link_names(
                bv,
                raw@,
                nv,
                verb@,
                j as int,
                e0,
                file@,
            ),
        decreases names@.len() - j,
    {
        assert(nv[j as int] == names@[j as int]@);
        match boundary_index(bs, &names[j]) {
            Some(b) => {
                let ghost before = found@;
                found.push(share(&bs[b]));
                assert(boundary_views(found@) =~= boundary_views(before).push(bs@[b as int]@));
            },
            None => {
                let mut m = owned("Component '");
                push_str(&mut m, raw.name.as_str());
                push_str(&mut m, "' ");
                push_str(&mut m, verb);
                push_str(&mut m, " undefined boundary '");
                push_str(&mut m, names[j].as_str());
                push_str(&mut m, "'");
                let ghost before = errors@;
                proof {
                    assert(raw@.name == raw.name@);
                    assert(raw@.line == raw.line);
                }
                errors.push(error_at(m, file, raw.line));
                assert(error_views(errors@) =~= error_views(before).push(
                    located(undefined_boundary(raw@.name, verb@, nv[j as int]), file@, raw@.line),
                ));
            },
        }
        j = j + 1;
    }
    found
}

/// Links every component to its boundaries.
fn link_components(
    bs: &Vec<Arc<Boundary>>,
    raws: &Vec<RawComponent>,
    errors: &mut Vec<ValidationError>,
    file: &str,
) -> (cs: Vec<Arc<Component>>)
    ensures
        (component_views(cs@), error_views(final(errors)@)) == link_all(
            boundary_views(bs@),
            raws@.map_values(|r: RawComponent| r@),
            raws@.len() as int,
            error_views(old(errors)@),
            file@,
        ),
        final(errors)@.len() >= old(errors)@.len(),
{
    let ghost rv = raws@.map_values(|r: RawComponent| r@);
    let ghost e0 = error_views(errors@);
    let ghost bv = boundary_views(bs@);
    let mut cs: Vec<Arc<Component>> = Vec::new();
    let mut i: usize = 0;
    proof {
        assert(component_views(cs@) =~= Seq::<ComponentView>::empty());
    }
    while i < raws.len()
        invariant
            i <= raws@.len(),
            rv == raws@.map_values(|r: RawComponent| r@),
            bv == boundary_views(bs@),
            errors@.len() >= old(errors)@.len(),
            e0 == error_views(old(errors)@),
            (component_views(cs@), error_views(errors@)) == link_all(bv, rv, i as int, e0, file@),
        decreases raws@.len() - i,
    {
        let raw = &raws[i];
        assert(rv[i as int] == raw@);
        let provided = link_list(bs, raw, &raw.provides, "provides", errors, file);
        let required = link_list(bs, raw, &raw.requires, "requires", errors, file);
        let c = Arc::new(
            Component {
                name: raw.name.clone(),
                technology: raw.technology.clone(),
                provides: provided,
                requires: required,
                line: Some(raw.line),
            },
        );
        let ghost before = cs@;
        cs.push(c);
        assert(component_views(cs@) =~= component_views(before).push(c@));
        i = i + 1;
    }
    cs
}

/// Reads every YAML block of a document in order.
pub(crate) fn scan_blocks(content: &str, file: &str, unique: bool) -> (acc: ParseAcc)
    ensures
        acc@ == parse_scan(yaml_blocks(content@), yaml_blocks(content@).len() as int, file@, unique),
{
    let blocks = extract_yaml_blocks(content);
    let ghost bv = block_views(blocks@);
    let mut acc = ParseAcc {
        system_name: None,
        system_line: 0,
        boundaries: Vec::new(),
        raws: Vec::new(),
        errors: Vec::new(),
    };
    proof {
        assert(boundary_views(acc.boundaries@) =~= Seq::<BoundaryView>::empty());
        assert(acc.raws@.map_values(|r: RawComponent| r@) =~= Seq::<RawView>::empty());
        assert(error_views(acc.errors@) =~= Seq::<ErrorView>::empty());
        assert(acc@ == parse_start());
    }
    let mut i: usize = 0;
    while i < blocks.len()
        invariant
            i <= blocks@.len(),
            bv == block_views(blocks@),
            bv == yaml_blocks(content@),
            acc@ == parse_scan(bv, i as int, file@, unique),
        decreases blocks@.len() - i,
    {
        assert(bv[i as int] == (blocks@[i as int].0@, blocks@[i as int].1));
        acc.block(&blocks[i].0, blocks[i].1, file, unique);
        i = i + 1;
    }
    acc
}

/// Parses a CABIDL document from an already-resolved content string: the
/// linked system model, or the errors found. Boundary names must be unique
/// and every boundary a component names must be defined; both are checked
/// here.
pub fn parse_content(content: &str, file: &str) -> (r: Result<System, Vec<ValidationError>>)
    ensures
        match r {
            Ok(s) => parse_spec(content@, file@) == Ok::<SystemView, Seq<ErrorView>>(s@),
            Err(es) => parse_spec(content@, file@) == Err::<SystemView, Seq<ErrorView>>(
                error_views(es@),
            ),
        },
{
    let acc = scan_blocks(content, file, true);
    let ParseAcc { system_name, system_line, boundaries, raws, mut errors } = acc;
    if system_name.is_none() && errors.len() == 0 {
        let ghost before = errors@;
        errors.push(ValidationError { message: owned("No system block found in document (exactly one required)"), file: owned(file), line: None });
        assert(error_views(errors@) =~= error_views(before).push(no_system_error(file@)));
    }
    let components = link_components(&boundaries, &raws, &mut errors, file);
    if errors.len() > 0 {
        return Err(errors);
    }
    match system_name {
        Some(name) => Ok(System { name, boundaries, components, line: Some(system_line) }),
        None => {
            assert(false);
            Err(errors)
        },
    }
}

// ---------------------------------------------------------------------------
// Checking a parsed model
// ---------------------------------------------------------------------------
/// Whether an exposure value is one of the two the format allows.
pub open spec fn valid_exposure(e: Seq<char>) -> bool {
    e == "external"@ || e == "internal"@
}

pub open spec fn invalid_exposure(exposure: Seq<char>, boundary: Seq<char>) -> Seq<char> {
    "Invalid exposure value '"@ + exposure + "' in boundary '"@ + boundary
        + "' (must be 'external' or 'internal')"@
}

/// One error per boundary, among the first `n`, whose exposure is set to a
/// value other than `external` or `internal`.
pub open spec fn exposure_errors(bs: Seq<BoundaryView>, n: int, file: Seq<char>) -> Seq<ErrorView>
    decreases n,
{
    if n <= 0 || n > bs.len() {
        Seq::empty()
    } else {
        let prev = exposure_errors(bs, n - 1, file);
        let b = bs[n - 1];
        match b.exposure {
            Some(e) => if valid_exposure(e) {
                prev
            } else {
                prev.push(ErrorView { message: invalid_exposure(e, b.name), file, line: b.line })
            },
            None => prev,
        }
    }
}

/// Whether a component before position `i` has the same name as the one at `i`.
pub open spec fn named_before(cs: Seq<ComponentView>, i: int) -> bool {
    exists|k: int| 0 <= k < i && cs[k].name == cs[i].name
}

/// One error per component, among the first `n`, that repeats the name of
/// an earlier component.
pub open spec fn duplicate_errors(cs: Seq<ComponentView>, n: int, file: Seq<char>) -> Seq<ErrorView>
    decreases n,
{
    if n <= 0 || n > cs.len() {
        Seq::empty()
    } else {
        let prev = duplicate_errors(cs, n - 1, file);
        if named_before(cs, n - 1) {
            prev.push(
                ErrorView {
                    message: "Duplicate component name '"@ + cs[n - 1].name + "'"@,
                    file,
                    line: cs[n - 1].line,
                },
            )
        } else {
            prev
        }
    }
}

/// What checking a parsed system reports: the exposure errors in boundary
/// order, then the duplicate component names in component order.
pub open spec fn validate_spec(sys: SystemView, file: Seq<char>) -> Seq<ErrorView> {
    exposure_errors(sys.boundaries, sys.boundaries.len() as int, file) + duplicate_errors(
        sys.components,
        sys.components.len() as int,
        file,
    )
}

/// Checks a parsed system model: each boundary's exposure value must be
/// `external` or `internal`, and component names must be unique. Boundary
/// name uniqueness and boundary references are checked while parsing.
pub fn validate(system: &System, file: &str) -> (errors: Vec<ValidationError>)
    ensures
        error_views(errors@) == validate_spec(system@, file@),
{
    let ghost bv = boundary_views(system.boundaries@);
    let ghost cv = component_views(system.components@);
    let mut errors: Vec<ValidationError> = Vec::new();
    let mut i: usize = 0;
    proof {
        assert(error_views(errors@) =~= Seq::<ErrorView>::empty());
    }
    while i < system.boundaries.len()
        invariant
            i <= system.boundaries@.len(),
            bv == boundary_views(system.boundaries@),
            error_views(errors@) == exposure_errors(bv, i as int, file@),
        decreases system.boundaries@.len() - i,
    {
        let b = &system.boundaries[i];
        assert(bv[i as int] == b@);
        match &b.exposure {
            Some(e) => {
                if !str_eq(e.as_str(), "external") && !str_eq(e.as_str(), "internal") {
                    let mut m = owned("Invalid exposure value '");
                    push_str(&mut m, e.as_str());
                    push_str(&mut m, "' in boundary '");
                    push_str(&mut m, b.name.as_str());
                    push_str(&mut m, "' (must be 'external' or 'internal')");
                    let ghost before = errors@;
                    errors.push(ValidationError { message: m, file: owned(file), line: b.line });
                    assert(error_views(errors@) =~= error_views(before).push(
                        ErrorView { message: invalid_exposure(e@, b.name@), file: file@, line: b.line },
                    ));
                }
            },
            None => {},
        }
        i = i + 1;
    }
    let ghost exp = error_views(errors@);
    let mut j: usize = 0;
    proof {
        assert(exp + duplicate_errors(cv, 0, file@) =~= exp);
    }
    while j < system.components.len()
        invariant
            j <= system.components@.len(),
            cv == component_views(system.components@),
            exp == exposure_errors(bv, bv.len() as int, file@),
            bv == boundary_views(system.boundaries@),
            error_views(errors@) == exp + duplicate_errors(cv, j as int, file@),
        decreases system.components@.len() - j,
    {
        let c = &system.components[j];
        assert(cv[j as int] == c@);
        let mut seen = false;
        let mut k: usize = 0;
        while k < j
            invariant
                k <= j < system.components@.len(),
                cv == component_views(system.components@),
                cv[j as int] == c@,
                seen == exists|q: int| 0 <= q < k && cv[q].name == cv[j as int].name,
            decreases j - k,
        {
            assert(cv[k as int] == system.components@[k as int]@);
            let ghost prev = seen;
            let eq = str_eq(system.components[k].name.as_str(), c.name.as_str());
            if eq {
                seen = true;
            }
            proof {
                let target = cv[j as int].name;
                if eq {
                    assert(cv[k as int].name == target);
                    assert(exists|q: int| 0 <= q < k + 1 && cv[q].name == target);
                } else {
                    assert(cv[k as int].name != target);
                    if exists|q: int| 0 <= q < k + 1 && cv[q].name == target {
                        let q = choose|q: int| 0 <= q < k + 1 && cv[q].name == target;
                        assert(q < k);
                        assert(exists|q2: int| 0 <= q2 < k && cv[q2].name == target);
                    }
                    if prev {
                        let q = choose|q: int| 0 <= q < k && cv[q].name == target;
                        assert(0 <= q < k + 1 && cv[q].name == target);
                    }
                }
            }
            k = k + 1;
        }
        assert(seen == named_before(cv, j as int));
        if seen {
            let mut m = owned("Duplicate component name '");
            push_str(&mut m, c.name.as_str());
            push_str(&mut m, "'");
            let ghost before = errors@;
            errors.push(ValidationError { message: m, file: owned(file), line: c.line });
            assert(error_views(errors@) =~= error_views(before).push(
                ErrorView { message: "Duplicate component name '"@ + c.name@ + "'"@, file: file@, line: c.line },
            ));
            assert(exp + duplicate_errors(cv, j + 1, file@) =~= (exp + duplicate_errors(cv, j as int, file@)).push(
                ErrorView { message: "Duplicate component name '"@ + c.name@ + "'"@, file: file@, line: c.line },
            ));
        }
        j = j + 1;
    }
    errors
}


/// Whether a boundary's exposure is unset or one of the two allowed values.
pub open spec fn exposure_ok(b: BoundaryView) -> bool {
    match b.exposure {
        Some(e) => valid_exposure(e),
        None => true,
    }
}

pub(crate) proof fn lemma_exposure_errors_empty(bs: Seq<BoundaryView>, n: int, file: Seq<char>)
    requires
        0 <= n <= bs.len(),
    ensures
        exposure_errors(bs, n, file).len() == 0 <==> forall|i: int| 0 <= i < n ==> #[trigger] exposure_ok(bs[i]),
    decreases n,
{
    if n > 0 {
        lemma_exposure_errors_empty(bs, n - 1, file);
        if !exposure_ok(bs[n - 1]) {
            assert(exposure_errors(bs, n, file).len() > 0);
        }
    }
}

proof fn lemma_duplicate_errors_empty(cs: Seq<ComponentView>, n: int, file: Seq<char>)
    requires
        0 <= n <= cs.len(),
    ensures
        duplicate_errors(cs, n, file).len() == 0 <==> forall|i: int, j: int|
            0 <= i < j < n ==> #[trigger] cs[i].name != #[trigger] cs[j].name,
    decreases n,
{
    if n > 0 {
        lemma_duplicate_errors_empty(cs, n - 1, file);
        if named_before(cs, n - 1) {
            assert(duplicate_errors(cs, n, file).len() > 0);
            let k = choose|k: int| 0 <= k < n - 1 && #[trigger] cs[k].name == cs[n - 1].name;
            assert(cs[k].name == cs[n - 1].name);
        } else {
            assert forall|i: int, j: int| 0 <= i < j < n && j == n - 1 implies #[trigger] cs[i].name
                != #[trigger] cs[j].name by {
                assert(!(0 <= i < n - 1 && cs[i].name == cs[n - 1].name));
            }
        }
    }
}

/// A parsed system passes validation exactly when every boundary's exposure
/// is unset, `external` or `internal`, and no two components share a name.
pub proof fn lemma_validate_clean(system: SystemView, file: Seq<char>)
    ensures
        validate_spec(system, file).len() == 0 <==> ((forall|i: int|
            0 <= i < system.boundaries.len() ==> #[trigger] exposure_ok(system.boundaries[i])) && (forall|
            i: int,
            j: int,
        | 0 <= i < j < system.components.len() ==> #[trigger] system.components[i].name
            != #[trigger] system.components[j].name)),
{
    lemma_exposure_errors_empty(system.boundaries, system.boundaries.len() as int, file);
    lemma_duplicate_errors_empty(system.components, system.components.len() as int, file);
}


/// Whether a boundary's exposure is set to a value other than `external`
/// or `internal`.
pub open spec fn bad_exposure(b: BoundaryView) -> bool {
    b.exposure is Some && !valid_exposure(b.exposure->Some_0)
}

/// The error that a bad exposure of a boundary is reported with.
pub open spec fn exposure_error(b: BoundaryView, file: Seq<char>) -> ErrorView {
    ErrorView {
        message: "Invalid exposure value '"@ + b.exposure->Some_0 + "' in boundary '"@ + b.name
            + "' (must be 'external' or 'internal')"@,
        file,
        line: b.line,
    }
}

/// The exposure errors of the first `n` boundaries hold one error for
/// each bad exposure among them, naming the value and the boundary, at the
/// boundary's line; and there are as many as there are bad exposures.
pub(crate) proof fn lemma_exposure_errors_each(bs: Seq<BoundaryView>, n: int, file: Seq<char>)
    requires
        0 <= n <= bs.len(),
    ensures
        exposure_errors(bs, n, file).len() == bs.take(n).filter(|b: BoundaryView| bad_exposure(b)).len(),
        forall|k: int|
            0 <= k < n && #[trigger] bad_exposure(bs[k]) ==> exists|j: int|
                0 <= j < exposure_errors(bs, n, file).len() && #[trigger] exposure_errors(bs, n, file)[j]
                    == exposure_error(bs[k], file),
    decreases n,
{
    let f = |b: BoundaryView| bad_exposure(b);
    if n == 0 {
        assert(bs.take(0) =~= Seq::<BoundaryView>::empty());
        reveal_with_fuel(Seq::filter, 1);
    } else {
        lemma_exposure_errors_each(bs, n - 1, file);
        let prev = exposure_errors(bs, n - 1, file);
        let cur = exposure_errors(bs, n, file);
        assert(bs.take(n).drop_last() =~= bs.take(n - 1));
        assert(bs.take(n).last() == bs[n - 1]);
        reveal_with_fuel(Seq::filter, 1);
        assert(cur.len() == bs.take(n).filter(f).len());
        assert forall|k: int| 0 <= k < n && #[trigger] bad_exposure(bs[k]) implies exists|j: int|
            0 <= j < cur.len() && #[trigger] cur[j] == exposure_error(bs[k], file) by {
            if k < n - 1 {
                let j = choose|j: int| 0 <= j < prev.len() && #[trigger] prev[j] == exposure_error(bs[k], file);
                assert(cur[j] == prev[j]);
            } else {
                assert(cur[prev.len() as int] == exposure_error(bs[k], file));
            }
        }
    }
}

/// Validation reports every bad exposure: for each boundary whose exposure
/// is set to a value other than `external` or `internal`, the report holds
/// the error naming that value and that boundary, at the boundary's line;
/// and the report holds as many errors as there are such boundaries and
/// repeated component names together.
pub proof fn lemma_validate_reports_each_exposure(system: SystemView, file: Seq<char>)
    ensures
        forall|k: int|
            0 <= k < system.boundaries.len() && #[trigger] bad_exposure(system.boundaries[k]) ==> exists|j: int|
                0 <= j < validate_spec(system, file).len() && #[trigger] validate_spec(system, file)[j]
                    == exposure_error(system.boundaries[k], file),
        validate_spec(system, file).len() == system.boundaries.filter(|b: BoundaryView| bad_exposure(b)).len()
            + duplicate_errors(system.components, system.components.len() as int, file).len(),
{
    let bs = system.boundaries;
    let n = bs.len() as int;
    lemma_exposure_errors_each(bs, n, file);
    assert(bs.take(n) =~= bs);
    let exp = exposure_errors(bs, n, file);
    let all = validate_spec(system, file);
    assert forall|k: int| 0 <= k < n && #[trigger] bad_exposure(bs[k]) implies exists|j: int|
        0 <= j < all.len() && #[trigger] all[j] == exposure_error(bs[k], file) by {
        let j = choose|j: int| 0 <= j < exp.len() && #[trigger] exp[j] == exposure_error(bs[k], file);
        assert(all[j] == exp[j]);
    }
}

/// The error that a component repeating an earlier component's name is
/// reported with.
pub open spec fn duplicate_error(c: ComponentView, file: Seq<char>) -> ErrorView {
    ErrorView { message: "Duplicate component name '"@ + c.name + "'"@, file, line: c.line }
}

proof fn lemma_duplicate_errors_each(cs: Seq<ComponentView>, n: int, file: Seq<char>)
    requires
        0 <= n <= cs.len(),
    ensures
        forall|k: int|
            0 <= k < n && #[trigger] named_before(cs, k) ==> exists|j: int|
                0 <= j < duplicate_errors(cs, n, file).len() && #[trigger] duplicate_errors(cs, n, file)[j]
                    == duplicate_error(cs[k], file),
    decreases n,
{
    if n > 0 {
        lemma_duplicate_errors_each(cs, n - 1, file);
        let prev = duplicate_errors(cs, n - 1, file);
        let cur = duplicate_errors(cs, n, file);
        assert forall|k: int| 0 <= k < n && #[trigger] named_before(cs, k) implies exists|j: int|
            0 <= j < cur.len() && #[trigger] cur[j] == duplicate_error(cs[k], file) by {
            if k < n - 1 {
                let j = choose|j: int| 0 <= j < prev.len() && #[trigger] prev[j] == duplicate_error(cs[k], file);
                assert(cur[j] == prev[j]);
            } else {
                assert(named_before(cs, n - 1));
                assert(cur[prev.len() as int] == duplicate_error(cs[k], file));
            }
        }
    }
}

/// Validation reports every repeated component name: for each component
/// that bears the name of an earlier one, the report holds the error
/// naming it, at its line.
pub proof fn lemma_validate_reports_each_duplicate(system: SystemView, file: Seq<char>)
    ensures
        forall|k: int|
            #![trigger system.components[k]]
            0 <= k < system.components.len() && (exists|q: int|
                0 <= q < k && #[trigger] system.components[q].name == system.components[k].name) ==> exists|j: int|
                0 <= j < validate_spec(system, file).len() && #[trigger] validate_spec(system, file)[j]
                    == duplicate_error(system.components[k], file),
{
    let cs = system.components;
    let n = cs.len() as int;
    lemma_duplicate_errors_each(cs, n, file);
    let exp = exposure_errors(system.boundaries, system.boundaries.len() as int, file);
    let dup = duplicate_errors(cs, n, file);
    let all = validate_spec(system, file);
    assert forall|k: int|
        #![trigger cs[k]]
        0 <= k < n && (exists|q: int| 0 <= q < k && #[trigger] cs[q].name == cs[k].name) implies exists|j: int|
        0 <= j < all.len() && #[trigger] all[j] == duplicate_error(cs[k], file) by {
        assert(named_before(cs, k));
        let j = choose|j: int| 0 <= j < dup.len() && #[trigger] dup[j] == duplicate_error(cs[k], file);
        assert(all[exp.len() + j] == dup[j]);
    }
}

/// No two boundaries bear the same name.
pub open spec fn names_unique(bs: Seq<BoundaryView>) -> bool {
    forall|i: int, j: int| 0 <= i < j < bs.len() ==> #[trigger] bs[i].name != #[trigger] bs[j].name
}

/// Every boundary that a component provides or requires is one of `bs`.
pub open spec fn linked_to(bs: Seq<BoundaryView>, c: ComponentView) -> bool {
    &&& forall|k: int| 0 <= k < c.provides.len() ==> bs.contains(#[trigger] c.provides[k])
    &&& forall|k: int| 0 <= k < c.requires.len() ==> bs.contains(#[trigger] c.requires[k])
}

proof fn lemma_find_boundary(bs: Seq<BoundaryView>, name: Seq<char>, i: int)
    requires
        0 <= i,
    ensures
        find_boundary(bs, name, i) is None ==> forall|k: int| i <= k < bs.len() ==> #[trigger] bs[k].name != name,
        find_boundary(bs, name, i) matches Some(b) ==> bs.contains(b) && b.name == name,
    decreases bs.len() - i,
{
    if i < bs.len() {
        lemma_find_boundary(bs, name, i + 1);
        if bs[i].name == name {
            assert(bs[i] == bs[i]);
        }
    }
}

proof fn lemma_step_keeps_unique(st: ParseState, text: Seq<char>, line: usize, file: Seq<char>)
    requires
        names_unique(st.boundaries),
    ensures
        names_unique(block_step(st, text, line, file, true).boundaries),
{
    let nb = block_step(st, text, line, file, true).boundaries;
    if nb != st.boundaries {
        let v = yaml_document(text)->Ok_0;
        let b = decode_boundary(v)->Ok_0;
        lemma_find_boundary(st.boundaries, b.name, 0);
        assert(nb.drop_last() == st.boundaries);
        assert(nb.last().name == b.name);
        assert forall|i: int, j: int| 0 <= i < j < nb.len() implies #[trigger] nb[i].name != #[trigger] nb[j].name by {
            if j == nb.len() - 1 {
                assert(nb[i] == st.boundaries[i]);
            } else {
                assert(nb[i] == st.boundaries[i] && nb[j] == st.boundaries[j]);
            }
        }
    }
}

proof fn lemma_scan_unique(blocks: Seq<(Seq<char>, usize)>, n: int, file: Seq<char>)
    ensures
        names_unique(parse_scan(blocks, n, file, true).boundaries),
    decreases n,
{
    if n > 0 && n <= blocks.len() {
        lemma_scan_unique(blocks, n - 1, file);
        lemma_step_keeps_unique(parse_scan(blocks, n - 1, file, true), blocks[n - 1].0, blocks[n - 1].1, file);
    }
}

proof fn lemma_link_names_found(
    bs: Seq<BoundaryView>,
    raw: RawView,
    names: Seq<Seq<char>>,
    verb: Seq<char>,
    n: int,
    errors: Seq<ErrorView>,
    file: Seq<char>,
)
    ensures
        forall|k: int|
            0 <= k < link_names(bs, raw, names, verb, n, errors, file).0.len() ==> bs.contains(
                #[trigger] link_names(bs, raw, names, verb, n, errors, file).0[k],
            ),
    decreases n,
{
    if n > 0 && n <= names.len() {
        lemma_link_names_found(bs, raw, names, verb, n - 1, errors, file);
        lemma_find_boundary(bs, names[n - 1], 0);
        let prev = link_names(bs, raw, names, verb, n - 1, errors, file).0;
        let cur = link_names(bs, raw, names, verb, n, errors, file).0;
        assert forall|k: int| 0 <= k < cur.len() implies bs.contains(#[trigger] cur[k]) by {
            if k < prev.len() {
                assert(cur[k] == prev[k]);
            }
        }
    }
}

proof fn lemma_link_all_linked(bs: Seq<BoundaryView>, raws: Seq<RawView>, n: int, errors: Seq<ErrorView>, file: Seq<char>)
    ensures
        forall|i: int|
            0 <= i < link_all(bs, raws, n, errors, file).0.len() ==> linked_to(
                bs,
                #[trigger] link_all(bs, raws, n, errors, file).0[i],
            ),
    decreases n,
{
    if n > 0 && n <= raws.len() {
        lemma_link_all_linked(bs, raws, n - 1, errors, file);
        let (cs, errs) = link_all(bs, raws, n - 1, errors, file);
        let raw = raws[n - 1];
        lemma_link_names_found(bs, raw, raw.provides, "provides"@, raw.provides.len() as int, errs, file);
        let e1 = link_names(bs, raw, raw.provides, "provides"@, raw.provides.len() as int, errs, file).1;
        lemma_link_names_found(bs, raw, raw.requires, "requires"@, raw.requires.len() as int, e1, file);
        let all = link_all(bs, raws, n, errors, file).0;
        assert forall|i: int| 0 <= i < all.len() implies linked_to(bs, #[trigger] all[i]) by {
            if i < cs.len() {
                assert(all[i] == cs[i]);
            }
        }
    }
}

/// A document that parses gives a linked system: no two boundaries share a
/// name, and every boundary a component provides or requires is one of the
/// system's boundaries.
pub proof fn lemma_parsed_system_linked(content: Seq<char>, file: Seq<char>)
    ensures
        parse_spec(content, file) matches Ok(system) ==> names_unique(system.boundaries) && forall|i: int|
            0 <= i < system.components.len() ==> #[trigger] linked_to(system.boundaries, system.components[i]),
{
    let blocks = yaml_blocks(content);
    let st = parse_scan(blocks, blocks.len() as int, file, true);
    lemma_scan_unique(blocks, blocks.len() as int, file);
    let errors0 = if st.system is None && st.errors.len() == 0 {
        st.errors.push(no_system_error(file))
    } else {
        st.errors
    };
    lemma_link_all_linked(st.boundaries, st.raws, st.raws.len() as int, errors0, file);
}


/// The boundary names a decoded component block lists under
/// `boundaries.provides`; none when the list or `boundaries` is absent.
pub open spec fn listed_provides(d: ComponentYamlView) -> Seq<Seq<char>> {
    match d.boundaries {
        Some(bb) => match bb.provides {
            Some(p) => p,
            None => Seq::empty(),
        },
        None => Seq::empty(),
    }
}

/// The boundary names a decoded component block lists under
/// `boundaries.requires`; none when the list or `boundaries` is absent.
pub open spec fn listed_requires(d: ComponentYamlView) -> Seq<Seq<char>> {
    match d.boundaries {
        Some(bb) => match bb.requires {
            Some(p) => p,
            None => Seq::empty(),
        },
        None => Seq::empty(),
    }
}

/// Whether a YAML block, of text and line `block`, declares a component
/// of the given name, technology and boundary names at its line: its YAML
/// loads, its `kind` is `component`, and it decodes to those.
pub open spec fn declares_component(
    block: (Seq<char>, usize),
    name: Seq<char>,
    technology: Option<Seq<char>>,
    provides: Seq<Seq<char>>,
    requires: Seq<Seq<char>>,
    line: Option<usize>,
) -> bool {
    match yaml_document(block.0) {
        Err(_) => false,
        Ok(v) => kind_of(v) == Some("component"@) && match decode_component(v) {
            Ok(d) => d.name == name && d.technology == technology && listed_provides(d) == provides
                && listed_requires(d) == requires && line == Some(block.1),
            Err(_) => false,
        },
    }
}

/// The names of boundaries.
pub open spec fn boundary_names(bs: Seq<BoundaryView>) -> Seq<Seq<char>> {
    bs.map_values(|b: BoundaryView| b.name)
}

proof fn lemma_step_raws(st: ParseState, text: Seq<char>, line: usize, file: Seq<char>, unique: bool)
    ensures
        ({
            let nr = block_step(st, text, line, file, unique).raws;
            nr == st.raws || (nr.len() == st.raws.len() + 1 && nr.drop_last() == st.raws && declares_component(
                (text, line),
                nr.last().name,
                nr.last().technology,
                nr.last().provides,
                nr.last().requires,
                Some(nr.last().line),
            ))
        }),
{
    let nr = block_step(st, text, line, file, unique).raws;
    if nr != st.raws {
        assert(nr.drop_last() =~= st.raws);
    }
}

pub(crate) proof fn lemma_scan_raws(blocks: Seq<(Seq<char>, usize)>, n: int, file: Seq<char>, unique: bool)
    ensures
        forall|i: int|
            #![trigger parse_scan(blocks, n, file, unique).raws[i]]
            0 <= i < parse_scan(blocks, n, file, unique).raws.len() ==> exists|j: int|
                0 <= j < blocks.len() && #[trigger] declares_component(
                    blocks[j],
                    parse_scan(blocks, n, file, unique).raws[i].name,
                    parse_scan(blocks, n, file, unique).raws[i].technology,
                    parse_scan(blocks, n, file, unique).raws[i].provides,
                    parse_scan(blocks, n, file, unique).raws[i].requires,
                    Some(parse_scan(blocks, n, file, unique).raws[i].line),
                ),
    decreases n,
{
    if n > 0 && n <= blocks.len() {
        lemma_scan_raws(blocks, n - 1, file, unique);
        let st = parse_scan(blocks, n - 1, file, unique);
        lemma_step_raws(st, blocks[n - 1].0, blocks[n - 1].1, file, unique);
        let nr = parse_scan(blocks, n, file, unique).raws;
        assert forall|i: int| #![trigger nr[i]] 0 <= i < nr.len() implies exists|j: int|
            0 <= j < blocks.len() && #[trigger] declares_component(
                blocks[j],
                nr[i].name,
                nr[i].technology,
                nr[i].provides,
                nr[i].requires,
                Some(nr[i].line),
            ) by {
            if i < st.raws.len() {
                assert(nr[i] == st.raws[i]);
            } else {
                assert(declares_component(
                    blocks[n - 1],
                    nr[i].name,
                    nr[i].technology,
                    nr[i].provides,
                    nr[i].requires,
                    Some(nr[i].line),
                ));
            }
        }
    }
}

/// Linking names adds one error per name not found, after those given;
/// with no error added, every name is found, in order.
proof fn lemma_link_names_exact(
    bs: Seq<BoundaryView>,
    raw: RawView,
    names: Seq<Seq<char>>,
    verb: Seq<char>,
    n: int,
    errors: Seq<ErrorView>,
    file: Seq<char>,
)
    requires
        0 <= n <= names.len(),
    ensures
        link_names(bs, raw, names, verb, n, errors, file).1.len() >= errors.len(),
        link_names(bs, raw, names, verb, n, errors, file).1.len() == errors.len() ==> boundary_names(
            link_names(bs, raw, names, verb, n, errors, file).0,
        ) == names.take(n),
    decreases n,
{
    if n > 0 {
        lemma_link_names_exact(bs, raw, names, verb, n - 1, errors, file);
        lemma_find_boundary(bs, names[n - 1], 0);
        let prev = link_names(bs, raw, names, verb, n - 1, errors, file);
        let cur = link_names(bs, raw, names, verb, n, errors, file);
        if cur.1.len() == errors.len() {
            assert(boundary_names(cur.0) =~= boundary_names(prev.0).push(names[n - 1]));
            assert(names.take(n) =~= names.take(n - 1).push(names[n - 1]));
        }
    } else {
        assert(boundary_names(Seq::<BoundaryView>::empty()) =~= names.take(0));
    }
}

proof fn lemma_link_all_keeps(bs: Seq<BoundaryView>, raws: Seq<RawView>, n: int, errors: Seq<ErrorView>, file: Seq<char>)
    requires
        0 <= n <= raws.len(),
    ensures
        link_all(bs, raws, n, errors, file).0.len() == n,
        link_all(bs, raws, n, errors, file).1.len() >= errors.len(),
        forall|i: int|
            0 <= i < n ==> {
                let c = #[trigger] link_all(bs, raws, n, errors, file).0[i];
                c.name == raws[i].name && c.technology == raws[i].technology && c.line == Some(raws[i].line)
            },
        link_all(bs, raws, n, errors, file).1.len() == errors.len() ==> forall|i: int|
            0 <= i < n ==> {
                let c = #[trigger] link_all(bs, raws, n, errors, file).0[i];
                boundary_names(c.provides) == raws[i].provides && boundary_names(c.requires) == raws[i].requires
            },
    decreases n,
{
    if n > 0 {
        lemma_link_all_keeps(bs, raws, n - 1, errors, file);
        let (prev, errs) = link_all(bs, raws, n - 1, errors, file);
        let raw = raws[n - 1];
        let np = raw.provides.len() as int;
        let nq = raw.requires.len() as int;
        lemma_link_names_exact(bs, raw, raw.provides, "provides"@, np, errs, file);
        let e1 = link_names(bs, raw, raw.provides, "provides"@, np, errs, file).1;
        lemma_link_names_exact(bs, raw, raw.requires, "requires"@, nq, e1, file);
        assert(raw.provides.take(np) =~= raw.provides);
        assert(raw.requires.take(nq) =~= raw.requires);
        let cur = link_all(bs, raws, n, errors, file).0;
        assert forall|i: int| 0 <= i < n - 1 implies cur[i] == prev[i] by {}
    }
}

/// Each component of a parsed system is one that a component block of the
/// document declares: that block's YAML decodes, as a `component`, to the
/// component's name, technology and the names of the boundaries it
/// provides and requires, in order, and the block starts at the
/// component's line.
pub proof fn lemma_components_come_from_blocks(content: Seq<char>, file: Seq<char>)
    ensures
        parse_spec(content, file) matches Ok(system) ==> forall|i: int|
            #![trigger system.components[i]]
            0 <= i < system.components.len() ==> exists|j: int|
                0 <= j < yaml_blocks(content).len() && #[trigger] declares_component(
                    yaml_blocks(content)[j],
                    system.components[i].name,
                    system.components[i].technology,
                    boundary_names(system.components[i].provides),
                    boundary_names(system.components[i].requires),
                    system.components[i].line,
                ),
{
    let blocks = yaml_blocks(content);
    let st = parse_scan(blocks, blocks.len() as int, file, true);
    lemma_scan_raws(blocks, blocks.len() as int, file, true);
    let errors0 = if st.system is None && st.errors.len() == 0 {
        st.errors.push(no_system_error(file))
    } else {
        st.errors
    };
    lemma_link_all_keeps(st.boundaries, st.raws, st.raws.len() as int, errors0, file);
    if parse_spec(content, file) is Ok {
        let cs = link_all(st.boundaries, st.raws, st.raws.len() as int, errors0, file).0;
        assert forall|i: int| #![trigger cs[i]] 0 <= i < cs.len() implies exists|j: int|
            0 <= j < blocks.len() && #[trigger] declares_component(
                blocks[j],
                cs[i].name,
                cs[i].technology,
                boundary_names(cs[i].provides),
                boundary_names(cs[i].requires),
                cs[i].line,
            ) by {
            let raw = st.raws[i];
            let j = choose|j: int|
                0 <= j < blocks.len() && #[trigger] declares_component(
                    blocks[j],
                    raw.name,
                    raw.technology,
                    raw.provides,
                    raw.requires,
                    Some(raw.line),
                );
            assert(declares_component(
                blocks[j],
                cs[i].name,
                cs[i].technology,
                boundary_names(cs[i].provides),
                boundary_names(cs[i].requires),
                cs[i].line,
            ));
        }
    }
}

} // verus!
