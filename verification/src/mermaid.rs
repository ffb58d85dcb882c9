//! Mermaid diagrams: a C4 context diagram (the default) or a class
//! diagram.
use crate::diagram_provider::{
    first_provides, is_external, is_referenced, mentions, referenced, sanitize_id, sanitized, DiagramError,
    DiagramProvider,
};
use crate::model::{boundary_views, Boundary, BoundaryView, Component, ComponentView, System, SystemView};
use crate::text::{contains_text, lemma_contains_middle, lemma_contains_within, owned, push_str, str_eq};
use std::sync::Arc;
use vstd::prelude::*;

verus! {

/// The Mermaid diagram provider (`mermaid`), with the sub-types `c4`
/// (the default) and `class`.
pub struct MermaidProvider;

// ---------------------------------------------------------------------------
// The diagrams, as text
// ---------------------------------------------------------------------------
/// A component's technology, or nothing.
pub open spec fn tech_text(c: ComponentView) -> Seq<char> {
    match c.technology {
        Some(t) => t,
        None => Seq::empty(),
    }
}

/// A C4 component element of kind `kind` (`Component` or
/// `Component_Ext`), indented by `ind`.
pub open spec fn c4_element(ind: Seq<char>, kind: Seq<char>, c: ComponentView) -> Seq<char> {
    ind + kind + "("@ + sanitized(c.name) + ", \""@ + c.name + "\", \""@ + tech_text(c) + "\")\n"@
}

/// The element kind of the components inside a boundary.
pub open spec fn c4_kind(b: BoundaryView) -> Seq<char> {
    if is_external(b) {
        "Component_Ext"@
    } else {
        "Component"@
    }
}

/// The elements, among the first `n` components, whose first provided
/// boundary is named `name`.
pub open spec fn c4_members(cs: Seq<ComponentView>, name: Seq<char>, kind: Seq<char>, n: int) -> Seq<char>
    decreases n,
{
    if n <= 0 || n > cs.len() {
        Seq::empty()
    } else {
        c4_members(cs, name, kind, n - 1) + if first_provides(cs[n - 1], name) {
            c4_element("        "@, kind, cs[n - 1])
        } else {
            Seq::empty()
        }
    }
}

/// The C4 block of a boundary.
pub open spec fn c4_boundary(cs: Seq<ComponentView>, b: BoundaryView) -> Seq<char> {
    "    Boundary("@ + sanitized(b.name) + ", \""@ + b.name + "\") {\n"@ + c4_members(
        cs,
        b.name,
        c4_kind(b),
        cs.len() as int,
    ) + "    }\n"@ + "\n"@
}

/// The C4 blocks of the first `n` boundaries that some component names.
pub open spec fn c4_boundaries(sys: SystemView, n: int) -> Seq<char>
    decreases n,
{
    if n <= 0 || n > sys.boundaries.len() {
        Seq::empty()
    } else {
        c4_boundaries(sys, n - 1) + if referenced(sys.components, sys.boundaries[n - 1].name) {
            c4_boundary(sys.components, sys.boundaries[n - 1])
        } else {
            Seq::empty()
        }
    }
}

/// The C4 elements of the first `n` components that provide nothing.
pub open spec fn c4_free(cs: Seq<ComponentView>, n: int) -> Seq<char>
    decreases n,
{
    if n <= 0 || n > cs.len() {
        Seq::empty()
    } else {
        c4_free(cs, n - 1) + if cs[n - 1].provides.len() == 0 {
            c4_element("    "@, "Component"@, cs[n - 1])
        } else {
            Seq::empty()
        }
    }
}

/// One line per boundary among the first `n`: `pre`, the component's
/// identifier, `mid`, the boundary's identifier, `post`.
pub open spec fn links(
    cid: Seq<char>,
    bs: Seq<BoundaryView>,
    pre: Seq<char>,
    mid: Seq<char>,
    post: Seq<char>,
    n: int,
) -> Seq<char>
    decreases n,
{
    if n <= 0 || n > bs.len() {
        Seq::empty()
    } else {
        links(cid, bs, pre, mid, post, n - 1) + pre + cid + mid + sanitized(bs[n - 1].name) + post
    }
}

/// The link lines of the first `n` components, to the boundaries they
/// provide (`provided`) or require.
pub open spec fn all_links(
    cs: Seq<ComponentView>,
    provided: bool,
    pre: Seq<char>,
    mid: Seq<char>,
    post: Seq<char>,
    n: int,
) -> Seq<char>
    decreases n,
{
    if n <= 0 || n > cs.len() {
        Seq::empty()
    } else {
        let c = cs[n - 1];
        let bs = if provided { c.provides } else { c.requires };
        all_links(cs, provided, pre, mid, post, n - 1) + links(sanitized(c.name), bs, pre, mid, post, bs.len() as int)
    }
}

/// The C4 context diagram of a system.
pub open spec fn c4_document(sys: SystemView) -> Seq<char> {
    "C4Context\n"@ + "    title "@ + sys.name + "\n"@ + "\n"@ + c4_boundaries(sys, sys.boundaries.len() as int)
        + c4_free(sys.components, sys.components.len() as int) + all_links(
        sys.components,
        false,
        "    Rel("@,
        ", "@,
        ", \"requires\")\n"@,
        sys.components.len() as int,
    )
}

/// The class of a boundary.
pub open spec fn boundary_class(b: BoundaryView) -> Seq<char> {
    "    class "@ + sanitized(b.name) + " {\n"@ + "        <<boundary>>\n"@ + "    }\n"@
}

/// The classes of the first `n` boundaries that some component names.
pub open spec fn boundary_classes(sys: SystemView, n: int) -> Seq<char>
    decreases n,
{
    if n <= 0 || n > sys.boundaries.len() {
        Seq::empty()
    } else {
        boundary_classes(sys, n - 1) + if referenced(sys.components, sys.boundaries[n - 1].name) {
            boundary_class(sys.boundaries[n - 1])
        } else {
            Seq::empty()
        }
    }
}

/// The class of a component, with its technology as a member.
pub open spec fn component_class(c: ComponentView) -> Seq<char> {
    "    class "@ + sanitized(c.name) + " {\n"@ + "        <<component>>\n"@ + match c.technology {
        Some(t) => "        "@ + t + "\n"@,
        None => Seq::empty(),
    } + "    }\n"@
}

/// The classes of the first `n` components.
pub open spec fn component_classes(cs: Seq<ComponentView>, n: int) -> Seq<char>
    decreases n,
{
    if n <= 0 || n > cs.len() {
        Seq::empty()
    } else {
        component_classes(cs, n - 1) + component_class(cs[n - 1])
    }
}

/// The class diagram of a system: realization for what a component
/// provides, dependency for what it requires.
pub open spec fn class_document(sys: SystemView) -> Seq<char> {
    let cs = sys.components;
    let n = cs.len() as int;
    "classDiagram\n"@ + boundary_classes(sys, sys.boundaries.len() as int) + component_classes(cs, n)
        + all_links(cs, true, "    "@, " --|> "@, "\n"@, n) + all_links(cs, false, "    "@, " ..> "@, "\n"@, n)
}

pub open spec fn unknown_mermaid_sub_type(t: Seq<char>) -> Seq<char> {
    "Unknown mermaid diagram sub-type: '"@ + t + "'. Valid values: c4, class"@
}

// ---------------------------------------------------------------------------
// Writing the diagrams
// ---------------------------------------------------------------------------
fn write_element(out: &mut String, ind: &str, kind: &str, c: &Component)
    ensures
        final(out)@ == old(out)@ + c4_element(ind@, kind@, c@),
{
    let ghost o = out@;
    let cid = sanitize_id(c.name.as_str());
    push_str(out, ind);
    push_str(out, kind);
    push_str(out, "(");
    push_str(out, cid.as_str());
    push_str(out, ", \"");
    push_str(out, c.name.as_str());
    push_str(out, "\", \"");
    match &c.technology {
        Some(t) => push_str(out, t.as_str()),
        None => {},
    }
    push_str(out, "\")\n");
    assert(out@ =~= o + c4_element(ind@, kind@, c@));
}

fn write_c4_boundary(out: &mut String, cs: &Vec<Arc<Component>>, b: &Boundary)
    ensures
        final(out)@ == old(out)@ + c4_boundary(crate::model::component_views(cs@), b@),
{
    let ghost o = out@;
    let ghost cv = crate::model::component_views(cs@);
    let external = match &b.exposure {
        Some(e) => str_eq(e.as_str(), "external"),
        None => false,
    };
    let kind = if external {
        "Component_Ext"
    } else {
        "Component"
    };
    assert(kind@ == c4_kind(b@));
    let bid = sanitize_id(b.name.as_str());
    push_str(out, "    Boundary(");
    push_str(out, bid.as_str());
    push_str(out, ", \"");
    push_str(out, b.name.as_str());
    push_str(out, "\") {\n");
    let ghost o2 = out@;
    let mut i: usize = 0;
    while i < cs.len()
        invariant
            i <= cs@.len(),
            cv == crate::model::component_views(cs@),
            out@ == o2 + c4_members(cv, b@.name, kind@, i as int),
        decreases cs@.len() - i,
    {
        let c = &cs[i];
        assert(cv[i as int] == c@);
        if c.provides.len() > 0 && str_eq(c.provides[0].name.as_str(), b.name.as_str()) {
            assert(c@.provides[0] == c.provides@[0]@);
            write_element(out, "        ", kind, c);
        } else {
            proof {
                if c@.provides.len() > 0 {
                    assert(c@.provides[0] == c.provides@[0]@);
                }
            }
        }
        assert(out@ =~= o2 + c4_members(cv, b@.name, kind@, i + 1));
        i = i + 1;
    }
    push_str(out, "    }\n");
    push_str(out, "\n");
    assert(out@ =~= o + c4_boundary(cv, b@));
}

fn write_links(out: &mut String, cid: &str, bs: &Vec<Arc<Boundary>>, pre: &str, mid: &str, post: &str)
    ensures
        final(out)@ == old(out)@ + links(cid@, boundary_views(bs@), pre@, mid@, post@, bs@.len() as int),
{
    let ghost o = out@;
    let ghost bv = boundary_views(bs@);
    let mut i: usize = 0;
    while i < bs.len()
        invariant
            i <= bs@.len(),
            bv == boundary_views(bs@),
            out@ == o + links(cid@, bv, pre@, mid@, post@, i as int),
        decreases bs@.len() - i,
    {
        assert(bv[i as int] == bs@[i as int]@);
        let bid = sanitize_id(bs[i].name.as_str());
        push_str(out, pre);
        push_str(out, cid);
        push_str(out, mid);
        push_str(out, bid.as_str());
        push_str(out, post);
        assert(out@ =~= o + links(cid@, bv, pre@, mid@, post@, i + 1));
        i = i + 1;
    }
}

fn write_all_links(out: &mut String, cs: &Vec<Arc<Component>>, provided: bool, pre: &str, mid: &str, post: &str)
    ensures
        final(out)@ == old(out)@ + all_links(
            crate::model::component_views(cs@),
            provided,
            pre@,
            mid@,
            post@,
            cs@.len() as int,
        ),
{
    let ghost o = out@;
    let ghost cv = crate::model::component_views(cs@);
    let mut i: usize = 0;
    while i < cs.len()
        invariant
            i <= cs@.len(),
            cv == crate::model::component_views(cs@),
            out@ == o + all_links(cv, provided, pre@, mid@, post@, i as int),
        decreases cs@.len() - i,
    {
        let c = &cs[i];
        assert(cv[i as int] == c@);
        let cid = sanitize_id(c.name.as_str());
        if provided {
            write_links(out, cid.as_str(), &c.provides, pre, mid, post);
        } else {
            write_links(out, cid.as_str(), &c.requires, pre, mid, post);
        }
        assert(out@ =~= o + all_links(cv, provided, pre@, mid@, post@, i + 1));
        i = i + 1;
    }
}

fn write_component_class(out: &mut String, c: &Component)
    ensures
        final(out)@ == old(out)@ + component_class(c@),
{
    let ghost o = out@;
    let cid = sanitize_id(c.name.as_str());
    push_str(out, "    class ");
    push_str(out, cid.as_str());
    push_str(out, " {\n");
    push_str(out, "        <<component>>\n");
    match &c.technology {
        Some(t) => {
            push_str(out, "        ");
            push_str(out, t.as_str());
            push_str(out, "\n");
        },
        None => {},
    }
    push_str(out, "    }\n");
    assert(out@ =~= o + component_class(c@));
}

impl MermaidProvider {
    /// The C4 context diagram of a system.
    pub fn generate_c4(&self, system: &System) -> (r: Result<String, DiagramError>)
        ensures
            r matches Ok(s) && s@ == c4_document(system@),
    {
        let ghost sv = system@;
        let ghost cv = sv.components;
        let mut out = owned("C4Context\n");
        push_str(&mut out, "    title ");
        push_str(&mut out, system.name.as_str());
        push_str(&mut out, "\n");
        push_str(&mut out, "\n");
        let ghost o1 = out@;
        let mut i: usize = 0;
        while i < system.boundaries.len()
            invariant
                i <= system.boundaries@.len(),
                sv == system@,
                cv == sv.components,
                out@ == o1 + c4_boundaries(sv, i as int),
            decreases system.boundaries@.len() - i,
        {
            let b = &system.boundaries[i];
            assert(sv.boundaries[i as int] == b@);
            if is_referenced(&system.components, &b.name) {
                write_c4_boundary(&mut out, &system.components, b);
            }
            assert(out@ =~= o1 + c4_boundaries(sv, i + 1));
            i = i + 1;
        }
        let ghost o2 = out@;
        let mut j: usize = 0;
        while j < system.components.len()
            invariant
                j <= system.components@.len(),
                sv == system@,
                cv == sv.components,
                out@ == o2 + c4_free(cv, j as int),
            decreases system.components@.len() - j,
        {
            let c = &system.components[j];
            assert(cv[j as int] == c@);
            if c.provides.len() == 0 {
                write_element(&mut out, "    ", "Component", c);
            }
            assert(out@ =~= o2 + c4_free(cv, j + 1));
            j = j + 1;
        }
        write_all_links(&mut out, &system.components, false, "    Rel(", ", ", ", \"requires\")\n");
        assert(out@ =~= c4_document(sv));
        Ok(out)
    }

    /// The class diagram of a system.
    pub fn generate_class(&self, system: &System) -> (r: Result<String, DiagramError>)
        ensures
            r matches Ok(s) && s@ == class_document(system@),
    {
        let ghost sv = system@;
        let ghost cv = sv.components;
        let mut out = owned("classDiagram\n");
        let ghost o1 = out@;
        let mut i: usize = 0;
        while i < system.boundaries.len()
            invariant
                i <= system.boundaries@.len(),
                sv == system@,
                cv == sv.components,
                out@ == o1 + boundary_classes(sv, i as int),
            decreases system.boundaries@.len() - i,
        {
            let b = &system.boundaries[i];
            assert(sv.boundaries[i as int] == b@);
            if is_referenced(&system.components, &b.name) {
                let bid = sanitize_id(b.name.as_str());
                push_str(&mut out, "    class ");
                push_str(&mut out, bid.as_str());
                push_str(&mut out, " {\n");
                push_str(&mut out, "        <<boundary>>\n");
                push_str(&mut out, "    }\n");
            }
            assert(out@ =~= o1 + boundary_classes(sv, i + 1));
            i = i + 1;
        }
        let ghost o2 = out@;
        let mut j: usize = 0;
        while j < system.components.len()
            invariant
                j <= system.components@.len(),
                sv == system@,
                cv == sv.components,
                out@ == o2 + component_classes(cv, j as int),
            decreases system.components@.len() - j,
        {
            let c = &system.components[j];
            assert(cv[j as int] == c@);
            write_component_class(&mut out, c);
            assert(out@ =~= o2 + component_classes(cv, j + 1));
            j = j + 1;
        }
        write_all_links(&mut out, &system.components, true, "    ", " --|> ", "\n");
        write_all_links(&mut out, &system.components, false, "    ", " ..> ", "\n");
        assert(out@ =~= class_document(sv));
        Ok(out)
    }
}

impl DiagramProvider for MermaidProvider {
    open spec fn format_name(&self) -> Seq<char> {
        "mermaid"@
    }

    /// No sub-type or `c4` gives the C4 diagram, `class` the class
    /// diagram; any other sub-type is an error.
    open spec fn generated(&self, system: SystemView, sub_type: Option<Seq<char>>) -> Result<Seq<char>, Seq<char>> {
        match sub_type {
            None => Ok(c4_document(system)),
            Some(t) => if t == "c4"@ {
                Ok(c4_document(system))
            } else if t == "class"@ {
                Ok(class_document(system))
            } else {
                Err(unknown_mermaid_sub_type(t))
            },
        }
    }

    fn diagram_type(&self) -> (r: &str) {
        "mermaid"
    }

    fn generate(&self, system: &System, diagram_sub_type: Option<&str>) -> (r: Result<String, DiagramError>) {
        match diagram_sub_type {
            None => self.generate_c4(system),
            Some(t) => {
                if str_eq(t, "c4") {
                    self.generate_c4(system)
                } else if str_eq(t, "class") {
                    self.generate_class(system)
                } else {
                    let mut m = owned("Unknown mermaid diagram sub-type: '");
                    push_str(&mut m, t);
                    push_str(&mut m, "'. Valid values: c4, class");
                    Err(DiagramError { message: m })
                }
            },
        }
    }
}


/// Without a sub-type the Mermaid provider draws the C4 diagram: the text
/// is the one that `c4` gives.
pub proof fn lemma_c4_is_default(p: MermaidProvider, system: SystemView)
    ensures
        p.generated(system, None) == p.generated(system, Some("c4"@)),
        p.generated(system, None) == Ok::<Seq<char>, Seq<char>>(c4_document(system)),
{
}


proof fn lemma_links_hold(
    cid: Seq<char>,
    bs: Seq<BoundaryView>,
    pre: Seq<char>,
    mid: Seq<char>,
    post: Seq<char>,
    n: int,
    k: int,
)
    requires
        0 <= k < n <= bs.len(),
    ensures
        contains_text(links(cid, bs, pre, mid, post, n), pre + cid + mid + sanitized(bs[k].name) + post),
    decreases n,
{
    let line = pre + cid + mid + sanitized(bs[n - 1].name) + post;
    assert(links(cid, bs, pre, mid, post, n) =~= links(cid, bs, pre, mid, post, n - 1) + line);
    if n == k + 1 {
        lemma_contains_middle(links(cid, bs, pre, mid, post, n - 1), line, Seq::empty());
        assert(links(cid, bs, pre, mid, post, n - 1) + line + Seq::<char>::empty() =~= links(cid, bs, pre, mid, post, n));
    } else {
        lemma_links_hold(cid, bs, pre, mid, post, n - 1, k);
        lemma_contains_within(
            Seq::empty(),
            links(cid, bs, pre, mid, post, n - 1),
            line,
            pre + cid + mid + sanitized(bs[k].name) + post,
        );
        assert(Seq::<char>::empty() + links(cid, bs, pre, mid, post, n - 1) + line =~= links(cid, bs, pre, mid, post, n));
    }
}

proof fn lemma_all_links_hold(
    cs: Seq<ComponentView>,
    provided: bool,
    pre: Seq<char>,
    mid: Seq<char>,
    post: Seq<char>,
    n: int,
    i: int,
    k: int,
)
    requires
        0 <= i < n <= cs.len(),
        0 <= k < (if provided { cs[i].provides } else { cs[i].requires }).len(),
    ensures
        contains_text(
            all_links(cs, provided, pre, mid, post, n),
            pre + sanitized(cs[i].name) + mid + sanitized(
                (if provided { cs[i].provides } else { cs[i].requires })[k].name,
            ) + post,
        ),
    decreases n,
{
    let c = cs[n - 1];
    let bs = if provided { c.provides } else { c.requires };
    let last = links(sanitized(c.name), bs, pre, mid, post, bs.len() as int);
    let needle = pre + sanitized(cs[i].name) + mid + sanitized(
        (if provided { cs[i].provides } else { cs[i].requires })[k].name,
    ) + post;
    if n == i + 1 {
        lemma_links_hold(sanitized(c.name), bs, pre, mid, post, bs.len() as int, k);
        lemma_contains_within(all_links(cs, provided, pre, mid, post, n - 1), last, Seq::empty(), needle);
        assert(all_links(cs, provided, pre, mid, post, n - 1) + last + Seq::<char>::empty() =~= all_links(
            cs,
            provided,
            pre,
            mid,
            post,
            n,
        ));
    } else {
        lemma_all_links_hold(cs, provided, pre, mid, post, n - 1, i, k);
        lemma_contains_within(Seq::empty(), all_links(cs, provided, pre, mid, post, n - 1), last, needle);
        assert(Seq::<char>::empty() + all_links(cs, provided, pre, mid, post, n - 1) + last =~= all_links(
            cs,
            provided,
            pre,
            mid,
            post,
            n,
        ));
    }
}

/// Every link of a component is drawn, to the boundary it names: for each
/// boundary `b` that a component `c` requires, the C4 diagram holds
/// `Rel(<c>, <b>, "requires")` and the class diagram `<c> ..> <b>`; for
/// each boundary it provides, the class diagram holds `<c> --|> <b>`
/// (identifiers sanitized).
pub proof fn lemma_every_link_is_drawn(sys: SystemView, i: int, k: int)
    requires
        0 <= i < sys.components.len(),
    ensures
        0 <= k < sys.components[i].requires.len() ==> contains_text(
            c4_document(sys),
            "    Rel("@ + sanitized(sys.components[i].name) + ", "@ + sanitized(sys.components[i].requires[k].name)
                + ", \"requires\")\n"@,
        ),
        0 <= k < sys.components[i].requires.len() ==> contains_text(
            class_document(sys),
            "    "@ + sanitized(sys.components[i].name) + " ..> "@ + sanitized(sys.components[i].requires[k].name)
                + "\n"@,
        ),
        0 <= k < sys.components[i].provides.len() ==> contains_text(
            class_document(sys),
            "    "@ + sanitized(sys.components[i].name) + " --|> "@ + sanitized(sys.components[i].provides[k].name)
                + "\n"@,
        ),
{
    let cs = sys.components;
    let n = cs.len() as int;
    if 0 <= k < cs[i].requires.len() {
        let rel = "    Rel("@ + sanitized(cs[i].name) + ", "@ + sanitized(cs[i].requires[k].name) + ", \"requires\")\n"@;
        lemma_all_links_hold(cs, false, "    Rel("@, ", "@, ", \"requires\")\n"@, n, i, k);
        let head = "C4Context\n"@ + "    title "@ + sys.name + "\n"@ + "\n"@ + c4_boundaries(sys, sys.boundaries.len() as int)
            + c4_free(cs, n);
        lemma_contains_within(head, all_links(cs, false, "    Rel("@, ", "@, ", \"requires\")\n"@, n), Seq::empty(), rel);
        assert(head + all_links(cs, false, "    Rel("@, ", "@, ", \"requires\")\n"@, n) + Seq::<char>::empty() =~= c4_document(sys));
        let dep = "    "@ + sanitized(cs[i].name) + " ..> "@ + sanitized(cs[i].requires[k].name) + "\n"@;
        lemma_all_links_hold(cs, false, "    "@, " ..> "@, "\n"@, n, i, k);
        let chead = "classDiagram\n"@ + boundary_classes(sys, sys.boundaries.len() as int) + component_classes(cs, n)
            + all_links(cs, true, "    "@, " --|> "@, "\n"@, n);
        lemma_contains_within(chead, all_links(cs, false, "    "@, " ..> "@, "\n"@, n), Seq::empty(), dep);
        assert(chead + all_links(cs, false, "    "@, " ..> "@, "\n"@, n) + Seq::<char>::empty() =~= class_document(sys));
    }
    if 0 <= k < cs[i].provides.len() {
        let realizes = "    "@ + sanitized(cs[i].name) + " --|> "@ + sanitized(cs[i].provides[k].name) + "\n"@;
        lemma_all_links_hold(cs, true, "    "@, " --|> "@, "\n"@, n, i, k);
        let chead = "classDiagram\n"@ + boundary_classes(sys, sys.boundaries.len() as int) + component_classes(cs, n);
        lemma_contains_within(
            chead,
            all_links(cs, true, "    "@, " --|> "@, "\n"@, n),
            all_links(cs, false, "    "@, " ..> "@, "\n"@, n),
            realizes,
        );
    }
}


/// The C4 element line of a component, of kind `kind`, indented by `ind`:
/// its identifier, its name and its technology (empty when it has none).
pub open spec fn c4_line(ind: Seq<char>, kind: Seq<char>, c: ComponentView) -> Seq<char> {
    ind + kind + "("@ + sanitized(c.name) + ", \""@ + c.name + "\", \""@ + match c.technology {
        Some(t) => t,
        None => Seq::empty(),
    } + "\")\n"@
}

/// The class of a component: its identifier, the `component` stereotype,
/// and its technology as a member when it has one.
pub open spec fn class_block(c: ComponentView) -> Seq<char> {
    "    class "@ + sanitized(c.name) + " {\n"@ + "        <<component>>\n"@ + match c.technology {
        Some(t) => "        "@ + t + "\n"@,
        None => Seq::empty(),
    } + "    }\n"@
}

proof fn lemma_c4_free_hold(cs: Seq<ComponentView>, n: int, i: int)
    requires
        0 <= i < n <= cs.len(),
        cs[i].provides.len() == 0,
    ensures
        contains_text(c4_free(cs, n), c4_element("    "@, "Component"@, cs[i])),
    decreases n,
{
    let last = if cs[n - 1].provides.len() == 0 {
        c4_element("    "@, "Component"@, cs[n - 1])
    } else {
        Seq::empty()
    };
    if n == i + 1 {
        lemma_contains_middle(c4_free(cs, n - 1), last, Seq::empty());
        assert(c4_free(cs, n - 1) + last + Seq::<char>::empty() =~= c4_free(cs, n));
    } else {
        lemma_c4_free_hold(cs, n - 1, i);
        lemma_contains_within(Seq::empty(), c4_free(cs, n - 1), last, c4_element("    "@, "Component"@, cs[i]));
        assert(Seq::<char>::empty() + c4_free(cs, n - 1) + last =~= c4_free(cs, n));
    }
}

proof fn lemma_c4_members_hold(cs: Seq<ComponentView>, name: Seq<char>, kind: Seq<char>, n: int, i: int)
    requires
        0 <= i < n <= cs.len(),
        first_provides(cs[i], name),
    ensures
        contains_text(c4_members(cs, name, kind, n), c4_element("        "@, kind, cs[i])),
    decreases n,
{
    let last = if first_provides(cs[n - 1], name) {
        c4_element("        "@, kind, cs[n - 1])
    } else {
        Seq::empty()
    };
    if n == i + 1 {
        lemma_contains_middle(c4_members(cs, name, kind, n - 1), last, Seq::empty());
        assert(c4_members(cs, name, kind, n - 1) + last + Seq::<char>::empty() =~= c4_members(cs, name, kind, n));
    } else {
        lemma_c4_members_hold(cs, name, kind, n - 1, i);
        lemma_contains_within(Seq::empty(), c4_members(cs, name, kind, n - 1), last, c4_element("        "@, kind, cs[i]));
        assert(Seq::<char>::empty() + c4_members(cs, name, kind, n - 1) + last =~= c4_members(cs, name, kind, n));
    }
}

proof fn lemma_c4_boundaries_hold(sys: SystemView, n: int, m: int, needle: Seq<char>)
    requires
        0 <= m < n <= sys.boundaries.len(),
        referenced(sys.components, sys.boundaries[m].name),
        contains_text(c4_boundary(sys.components, sys.boundaries[m]), needle),
    ensures
        contains_text(c4_boundaries(sys, n), needle),
    decreases n,
{
    let last = if referenced(sys.components, sys.boundaries[n - 1].name) {
        c4_boundary(sys.components, sys.boundaries[n - 1])
    } else {
        Seq::empty()
    };
    if n == m + 1 {
        lemma_contains_within(c4_boundaries(sys, n - 1), last, Seq::empty(), needle);
        assert(c4_boundaries(sys, n - 1) + last + Seq::<char>::empty() =~= c4_boundaries(sys, n));
    } else {
        lemma_c4_boundaries_hold(sys, n - 1, m, needle);
        lemma_contains_within(Seq::empty(), c4_boundaries(sys, n - 1), last, needle);
        assert(Seq::<char>::empty() + c4_boundaries(sys, n - 1) + last =~= c4_boundaries(sys, n));
    }
}

proof fn lemma_classes_hold(cs: Seq<ComponentView>, n: int, i: int)
    requires
        0 <= i < n <= cs.len(),
    ensures
        contains_text(component_classes(cs, n), component_class(cs[i])),
    decreases n,
{
    if n == i + 1 {
        lemma_contains_middle(component_classes(cs, n - 1), component_class(cs[i]), Seq::empty());
        assert(component_classes(cs, n - 1) + component_class(cs[i]) + Seq::<char>::empty() =~= component_classes(cs, n));
    } else {
        lemma_classes_hold(cs, n - 1, i);
        lemma_contains_within(Seq::empty(), component_classes(cs, n - 1), component_class(cs[n - 1]), component_class(cs[i]));
        assert(Seq::<char>::empty() + component_classes(cs, n - 1) + component_class(cs[n - 1]) =~= component_classes(cs, n));
    }
}

/// Every component is drawn, with its name and technology: in the C4
/// diagram, one that provides nothing as a top-level `Component`, and one
/// whose first provided boundary is a boundary of the system inside that
/// boundary's block (`Component_Ext` for an external boundary); in the
/// class diagram, as a `component` class that lists its technology.
pub proof fn lemma_every_component_is_drawn(sys: SystemView, i: int, m: int)
    requires
        0 <= i < sys.components.len(),
    ensures
        sys.components[i].provides.len() == 0 ==> contains_text(
            c4_document(sys),
            c4_line("    "@, "Component"@, sys.components[i]),
        ),
        0 <= m < sys.boundaries.len() && sys.components[i].provides.len() > 0
            && sys.components[i].provides[0].name == sys.boundaries[m].name ==> contains_text(
            c4_document(sys),
            c4_line(
                "        "@,
                if sys.boundaries[m].exposure == Some("external"@) {
                    "Component_Ext"@
                } else {
                    "Component"@
                },
                sys.components[i],
            ),
        ),
        contains_text(class_document(sys), class_block(sys.components[i])),
{
    let cs = sys.components;
    let c = cs[i];
    let n = cs.len() as int;
    let top = "C4Context\n"@ + "    title "@ + sys.name + "\n"@ + "\n"@;
    let bl = c4_boundaries(sys, sys.boundaries.len() as int);
    let fr = c4_free(cs, n);
    let rels = all_links(cs, false, "    Rel("@, ", "@, ", \"requires\")\n"@, n);
    assert(c4_document(sys) == top + bl + fr + rels);
    if c.provides.len() == 0 {
        let needle = c4_element("    "@, "Component"@, c);
        assert(c4_line("    "@, "Component"@, c) == needle);
        lemma_c4_free_hold(cs, n, i);
        lemma_contains_within(top + bl, fr, rels, needle);
    }
    if 0 <= m < sys.boundaries.len() && c.provides.len() > 0 && c.provides[0].name == sys.boundaries[m].name {
        let b = sys.boundaries[m];
        let kind = c4_kind(b);
        let needle = c4_element("        "@, kind, c);
        assert(mentions(cs[i], b.name)) by {
            assert(cs[i].provides[0].name == b.name);
        }
        assert(referenced(cs, b.name));
        lemma_c4_members_hold(cs, b.name, kind, n, i);
        let open = "    Boundary("@ + sanitized(b.name) + ", \""@ + b.name + "\") {\n"@;
        let members = c4_members(cs, b.name, kind, n);
        lemma_contains_within(open, members, "    }\n"@ + "\n"@, needle);
        assert(open + members + ("    }\n"@ + "\n"@) =~= c4_boundary(cs, b));
        lemma_c4_boundaries_hold(sys, sys.boundaries.len() as int, m, needle);
        lemma_contains_within(top, bl, fr + rels, needle);
        assert(top + bl + (fr + rels) =~= top + bl + fr + rels);
    }
    let chead = "classDiagram\n"@ + boundary_classes(sys, sys.boundaries.len() as int);
    let classes = component_classes(cs, n);
    let tail = all_links(cs, true, "    "@, " --|> "@, "\n"@, n) + all_links(cs, false, "    "@, " ..> "@, "\n"@, n);
    lemma_classes_hold(cs, n, i);
    assert(class_block(c) == component_class(c));
    lemma_contains_within(chead, classes, tail, component_class(c));
    assert(chead + classes + tail =~= class_document(sys));
}

} // verus!
