//! Graphviz DOT diagrams: each boundary that a component names becomes a
//! cluster holding the components that provide it first; further
//! provided boundaries and required ones become edges.
use crate::diagram_provider::{
    first_provides, is_external, mentions, is_referenced, referenced, sanitize_id, sanitized, DiagramError,
    DiagramProvider,
};
use crate::model::{Boundary, BoundaryView, Component, ComponentView, System, SystemView};
use crate::text::{contains_text, lemma_contains_middle, lemma_contains_within, owned, push_str, str_eq};
use std::sync::Arc;
use vstd::prelude::*;

verus! {

/// The Graphviz diagram provider (`graphviz`), with the sub-types `dark`
/// (the default) and `light`.
pub struct GraphvizProvider;

/// The colours and styles of a diagram.
pub struct ColorScheme {
    pub bg: &'static str,
    pub fg: &'static str,
    pub node_fg: &'static str,
    pub node_fill: &'static str,
    pub node_border: &'static str,
    pub edge_label: &'static str,
    pub external_border: &'static str,
    pub external_label: &'static str,
    pub external_style: &'static str,
    pub internal_border: &'static str,
    pub internal_label: &'static str,
    pub internal_style: &'static str,
    pub provides_color: &'static str,
    pub requires_color: &'static str,
}

pub struct SchemeView {
    pub bg: Seq<char>,
    pub fg: Seq<char>,
    pub node_fg: Seq<char>,
    pub node_fill: Seq<char>,
    pub node_border: Seq<char>,
    pub edge_label: Seq<char>,
    pub external_border: Seq<char>,
    pub external_label: Seq<char>,
    pub external_style: Seq<char>,
    pub internal_border: Seq<char>,
    pub internal_label: Seq<char>,
    pub internal_style: Seq<char>,
    pub provides_color: Seq<char>,
    pub requires_color: Seq<char>,
}

impl View for ColorScheme {
    type V = SchemeView;

    open spec fn view(&self) -> SchemeView {
        SchemeView {
            bg: self.bg@,
            fg: self.fg@,
            node_fg: self.node_fg@,
            node_fill: self.node_fill@,
            node_border: self.node_border@,
            edge_label: self.edge_label@,
            external_border: self.external_border@,
            external_label: self.external_label@,
            external_style: self.external_style@,
            internal_border: self.internal_border@,
            internal_label: self.internal_label@,
            internal_style: self.internal_style@,
            provides_color: self.provides_color@,
            requires_color: self.requires_color@,
        }
    }
}

/// The dark scheme.
pub open spec fn dark_scheme() -> SchemeView {
    SchemeView {
        bg: "#1e1e2e"@,
        fg: "#cdd6f4"@,
        node_fg: "#cdd6f4"@,
        node_fill: "#313244"@,
        node_border: "#585b70"@,
        edge_label: "#a6adc8"@,
        external_border: "#f38ba8"@,
        external_label: "#f38ba8"@,
        external_style: "rounded,bold"@,
        internal_border: "#585b70"@,
        internal_label: "#a6adc8"@,
        internal_style: "rounded"@,
        provides_color: "#a6e3a1"@,
        requires_color: "#89b4fa"@,
    }
}

/// The light scheme.
pub open spec fn light_scheme() -> SchemeView {
    SchemeView {
        bg: "#ffffff"@,
        fg: "#1e1e2e"@,
        node_fg: "#1e1e2e"@,
        node_fill: "#e6e9ef"@,
        node_border: "#9ca0b0"@,
        edge_label: "#6c6f85"@,
        external_border: "#d20f39"@,
        external_label: "#d20f39"@,
        external_style: "rounded,bold"@,
        internal_border: "#9ca0b0"@,
        internal_label: "#6c6f85"@,
        internal_style: "rounded"@,
        provides_color: "#40a02b"@,
        requires_color: "#1e66f5"@,
    }
}

impl ColorScheme {
    pub fn dark() -> (s: Self)
        ensures
            s@ == dark_scheme(),
    {
        ColorScheme {
            bg: "#1e1e2e",
            fg: "#cdd6f4",
            node_fg: "#cdd6f4",
            node_fill: "#313244",
            node_border: "#585b70",
            edge_label: "#a6adc8",
            external_border: "#f38ba8",
            external_label: "#f38ba8",
            external_style: "rounded,bold",
            internal_border: "#585b70",
            internal_label: "#a6adc8",
            internal_style: "rounded",
            provides_color: "#a6e3a1",
            requires_color: "#89b4fa",
        }
    }

    pub fn light() -> (s: Self)
        ensures
            s@ == light_scheme(),
    {
        ColorScheme {
            bg: "#ffffff",
            fg: "#1e1e2e",
            node_fg: "#1e1e2e",
            node_fill: "#e6e9ef",
            node_border: "#9ca0b0",
            edge_label: "#6c6f85",
            external_border: "#d20f39",
            external_label: "#d20f39",
            external_style: "rounded,bold",
            internal_border: "#9ca0b0",
            internal_label: "#6c6f85",
            internal_style: "rounded",
            provides_color: "#40a02b",
            requires_color: "#1e66f5",
        }
    }
}

// ---------------------------------------------------------------------------
// The diagram, as text
// ---------------------------------------------------------------------------
/// The label of a component node: its name, and its technology below.
pub open spec fn node_label(c: ComponentView) -> Seq<char> {
    match c.technology {
        Some(t) => c.name + "\\n["@ + t + "]"@,
        None => c.name,
    }
}

/// The node of a component, indented by `ind`.
pub open spec fn node_line(ind: Seq<char>, c: ComponentView, s: SchemeView) -> Seq<char> {
    ind + "\"component:"@ + c.name + "\" [shape=box style=\"filled,rounded\" fillcolor=\""@
        + s.node_fill + "\" fontcolor=\""@ + s.node_fg + "\" color=\""@ + s.node_border
        + "\" label=\""@ + node_label(c) + "\"]\n"@
}

pub open spec fn dot_header(name: Seq<char>, s: SchemeView) -> Seq<char> {
    "digraph \""@ + name + "\" {\n"@ + "    bgcolor=\""@ + s.bg + "\"\n"@ + "    fontcolor=\""@
        + s.fg + "\"\n"@ + "    fontname=\"Helvetica\"\n"@ + "    label=\""@ + name + "\"\n"@
        + "    labelloc=t\n"@ + "    fontsize=20\n"@ + "    compound=true\n"@ + "    ranksep=1.2\n"@
        + "    nodesep=0.8\n"@ + "    pad=0.5\n"@ + "\n"@
        + "    node [fontname=\"Helvetica\" fontsize=12 fontcolor=\""@ + s.node_fg + "\"]\n"@
        + "    edge [fontname=\"Helvetica\" fontsize=10 fontcolor=\""@ + s.edge_label + "\"]\n"@
        + "\n"@
}

/// The nodes, among the first `n` components, placed in the cluster of
/// boundary name `name`.
pub open spec fn cluster_members(cs: Seq<ComponentView>, s: SchemeView, name: Seq<char>, n: int) -> Seq<char>
    decreases n,
{
    if n <= 0 || n > cs.len() {
        Seq::empty()
    } else {
        cluster_members(cs, s, name, n - 1) + if first_provides(cs[n - 1], name) {
            node_line("        "@, cs[n - 1], s)
        } else {
            Seq::empty()
        }
    }
}

pub open spec fn cluster_open(name: Seq<char>, style: Seq<char>, border: Seq<char>, font: Seq<char>) -> Seq<char> {
    "    subgraph cluster_"@ + sanitized(name) + " {\n"@ + "        label=\""@ + name + "\"\n"@
        + "        style=\""@ + style + "\"\n"@ + "        color=\""@ + border + "\"\n"@
        + "        fontcolor=\""@ + font + "\"\n"@
}

pub open spec fn cluster_anchor(name: Seq<char>) -> Seq<char> {
    "        fontname=\"Helvetica\"\n"@ + "        fontsize=14\n"@ + "        margin=16\n"@ + "\n"@
        + "        \"_anchor:"@ + name + "\" [shape=point style=invis width=0 height=0]\n"@
}

/// The opening of a boundary's cluster: red and bold for an external
/// boundary, muted for any other.
pub open spec fn cluster_head(b: BoundaryView, s: SchemeView) -> Seq<char> {
    if is_external(b) {
        cluster_open(b.name, s.external_style, s.external_border, s.external_label) + cluster_anchor(b.name)
    } else {
        cluster_open(b.name, s.internal_style, s.internal_border, s.internal_label) + cluster_anchor(b.name)
    }
}

/// The cluster of a boundary.
pub open spec fn cluster(cs: Seq<ComponentView>, b: BoundaryView, s: SchemeView) -> Seq<char> {
    cluster_head(b, s) + cluster_members(cs, s, b.name, cs.len() as int) + "    }\n"@ + "\n"@
}

/// The clusters of the first `n` boundaries that some component names.
pub open spec fn clusters(sys: SystemView, s: SchemeView, n: int) -> Seq<char>
    decreases n,
{
    if n <= 0 || n > sys.boundaries.len() {
        Seq::empty()
    } else {
        clusters(sys, s, n - 1) + if referenced(sys.components, sys.boundaries[n - 1].name) {
            cluster(sys.components, sys.boundaries[n - 1], s)
        } else {
            Seq::empty()
        }
    }
}

/// The nodes of the first `n` components that provide nothing.
pub open spec fn free_nodes(cs: Seq<ComponentView>, s: SchemeView, n: int) -> Seq<char>
    decreases n,
{
    if n <= 0 || n > cs.len() {
        Seq::empty()
    } else {
        free_nodes(cs, s, n - 1) + if cs[n - 1].provides.len() == 0 {
            node_line("    "@, cs[n - 1], s)
        } else {
            Seq::empty()
        }
    }
}

pub open spec fn provides_edge(c: ComponentView, b: BoundaryView, s: SchemeView) -> Seq<char> {
    "    \"component:"@ + c.name + "\" -> \"_anchor:"@ + b.name + "\" [color=\""@ + s.provides_color
        + "\" label=\"provides\" lhead=\"cluster_"@ + sanitized(b.name) + "\"]\n"@
}

pub open spec fn requires_edge(c: ComponentView, b: BoundaryView, s: SchemeView) -> Seq<char> {
    "    \"component:"@ + c.name + "\" -> \"_anchor:"@ + b.name + "\" [color=\""@ + s.requires_color
        + "\" lhead=\"cluster_"@ + sanitized(b.name) + "\"]\n"@
}

/// Edges to the provided boundaries after the first, up to the `n`-th.
pub open spec fn provides_edges(c: ComponentView, s: SchemeView, n: int) -> Seq<char>
    decreases n,
{
    if n <= 1 || n > c.provides.len() {
        Seq::empty()
    } else {
        provides_edges(c, s, n - 1) + provides_edge(c, c.provides[n - 1], s)
    }
}

/// Edges to the first `n` required boundaries.
pub open spec fn requires_edges(c: ComponentView, s: SchemeView, n: int) -> Seq<char>
    decreases n,
{
    if n <= 0 || n > c.requires.len() {
        Seq::empty()
    } else {
        requires_edges(c, s, n - 1) + requires_edge(c, c.requires[n - 1], s)
    }
}

/// The edges of the first `n` components.
pub open spec fn edges(cs: Seq<ComponentView>, s: SchemeView, n: int) -> Seq<char>
    decreases n,
{
    if n <= 0 || n > cs.len() {
        Seq::empty()
    } else {
        edges(cs, s, n - 1) + provides_edges(cs[n - 1], s, cs[n - 1].provides.len() as int)
            + requires_edges(cs[n - 1], s, cs[n - 1].requires.len() as int)
    }
}

/// The DOT text of a system in a colour scheme.
pub open spec fn dot_document(sys: SystemView, s: SchemeView) -> Seq<char> {
    dot_header(sys.name, s) + clusters(sys, s, sys.boundaries.len() as int) + free_nodes(
        sys.components,
        s,
        sys.components.len() as int,
    ) + edges(sys.components, s, sys.components.len() as int) + "}\n"@
}

pub open spec fn unknown_graphviz_sub_type(t: Seq<char>) -> Seq<char> {
    "Unknown graphviz diagram sub-type: '"@ + t + "'. Valid values: dark, light"@
}

// ---------------------------------------------------------------------------
// Writing the diagram
// ---------------------------------------------------------------------------
fn put(out: &mut String, t: &str)
    ensures
        final(out)@ == old(out)@ + t@,
{
    push_str(out, t);
}

fn write_header(out: &mut String, name: &str, s: &ColorScheme)
    ensures
        final(out)@ == old(out)@ + dot_header(name@, s@),
{
    let ghost o = out@;
    put(out, "digraph \"");
    put(out, name);
    put(out, "\" {\n");
    put(out, "    bgcolor=\"");
    put(out, s.bg);
    put(out, "\"\n");
    put(out, "    fontcolor=\"");
    put(out, s.fg);
    put(out, "\"\n");
    put(out, "    fontname=\"Helvetica\"\n");
    put(out, "    label=\"");
    put(out, name);
    put(out, "\"\n");
    put(out, "    labelloc=t\n");
    put(out, "    fontsize=20\n");
    put(out, "    compound=true\n");
    put(out, "    ranksep=1.2\n");
    put(out, "    nodesep=0.8\n");
    put(out, "    pad=0.5\n");
    put(out, "\n");
    put(out, "    node [fontname=\"Helvetica\" fontsize=12 fontcolor=\"");
    put(out, s.node_fg);
    put(out, "\"]\n");
    put(out, "    edge [fontname=\"Helvetica\" fontsize=10 fontcolor=\"");
    put(out, s.edge_label);
    put(out, "\"]\n");
    put(out, "\n");
    assert(out@ =~= o + dot_header(name@, s@));
}

fn write_node(out: &mut String, ind: &str, c: &Component, s: &ColorScheme)
    ensures
        final(out)@ == old(out)@ + node_line(ind@, c@, s@),
{
    let ghost o = out@;
    put(out, ind);
    put(out, "\"component:");
    put(out, c.name.as_str());
    put(out, "\" [shape=box style=\"filled,rounded\" fillcolor=\"");
    put(out, s.node_fill);
    put(out, "\" fontcolor=\"");
    put(out, s.node_fg);
    put(out, "\" color=\"");
    put(out, s.node_border);
    put(out, "\" label=\"");
    let ghost before_label = out@;
    match &c.technology {
        Some(t) => {
            put(out, c.name.as_str());
            put(out, "\\n[");
            put(out, t.as_str());
            put(out, "]");
            assert(out@ =~= before_label + node_label(c@));
        },
        None => {
            put(out, c.name.as_str());
            assert(out@ =~= before_label + node_label(c@));
        },
    }
    put(out, "\"]\n");
    assert(out@ =~= o + node_line(ind@, c@, s@));
}

fn write_cluster_open(out: &mut String, name: &str, style: &str, border: &str, font: &str)
    ensures
        final(out)@ == old(out)@ + cluster_open(name@, style@, border@, font@),
{
    let ghost o = out@;
    let id = sanitize_id(name);
    put(out, "    subgraph cluster_");
    put(out, id.as_str());
    put(out, " {\n");
    put(out, "        label=\"");
    put(out, name);
    put(out, "\"\n");
    put(out, "        style=\"");
    put(out, style);
    put(out, "\"\n");
    put(out, "        color=\"");
    put(out, border);
    put(out, "\"\n");
    put(out, "        fontcolor=\"");
    put(out, font);
    put(out, "\"\n");
    assert(out@ =~= o + cluster_open(name@, style@, border@, font@));
}

fn write_cluster_anchor(out: &mut String, name: &str)
    ensures
        final(out)@ == old(out)@ + cluster_anchor(name@),
{
    let ghost o = out@;
    put(out, "        fontname=\"Helvetica\"\n");
    put(out, "        fontsize=14\n");
    put(out, "        margin=16\n");
    put(out, "\n");
    put(out, "        \"_anchor:");
    put(out, name);
    put(out, "\" [shape=point style=invis width=0 height=0]\n");
    assert(out@ =~= o + cluster_anchor(name@));
}

fn write_cluster_head(out: &mut String, b: &Boundary, s: &ColorScheme)
    ensures
        final(out)@ == old(out)@ + cluster_head(b@, s@),
{
    let ghost o = out@;
    let external = match &b.exposure {
        Some(e) => str_eq(e.as_str(), "external"),
        None => false,
    };
    assert(external == is_external(b@));
    if external {
        write_cluster_open(out, b.name.as_str(), s.external_style, s.external_border, s.external_label);
    } else {
        write_cluster_open(out, b.name.as_str(), s.internal_style, s.internal_border, s.internal_label);
    }
    write_cluster_anchor(out, b.name.as_str());
    assert(out@ =~= o + cluster_head(b@, s@));
}

fn write_cluster(out: &mut String, cs: &Vec<Arc<Component>>, b: &Boundary, s: &ColorScheme)
    ensures
        final(out)@ == old(out)@ + cluster(crate::model::component_views(cs@), b@, s@),
{
    let ghost o = out@;
    let ghost cv = crate::model::component_views(cs@);
    write_cluster_head(out, b, s);
    let ghost o2 = out@;
    let mut i: usize = 0;
    while i < cs.len()
        invariant
            i <= cs@.len(),
            cv == crate::model::component_views(cs@),
            out@ == o2 + cluster_members(cv, s@, b@.name, i as int),
        decreases cs@.len() - i,
    {
        let c = &cs[i];
        assert(cv[i as int] == c@);
        let ghost before = out@;
        if c.provides.len() > 0 && str_eq(c.provides[0].name.as_str(), b.name.as_str()) {
            assert(c@.provides[0] == c.provides@[0]@);
            write_node(out, "        ", c, s);
            assert(out@ =~= o2 + cluster_members(cv, s@, b@.name, i + 1));
        } else {
            proof {
                if c@.provides.len() > 0 {
                    assert(c@.provides[0] == c.provides@[0]@);
                }
            }
            assert(out@ =~= o2 + cluster_members(cv, s@, b@.name, i + 1));
        }
        i = i + 1;
    }
    put(out, "    }\n");
    put(out, "\n");
    assert(out@ =~= o + cluster(cv, b@, s@));
}

fn write_edges(out: &mut String, c: &Component, s: &ColorScheme)
    ensures
        final(out)@ == old(out)@ + provides_edges(c@, s@, c@.provides.len() as int) + requires_edges(
            c@,
            s@,
            c@.requires.len() as int,
        ),
{
    let ghost o = out@;
    let mut j: usize = 1;
    proof {
        assert(o + provides_edges(c@, s@, 0) =~= o);
        assert(provides_edges(c@, s@, 1) == Seq::<char>::empty());
    }
    if c.provides.len() == 0 {
        j = 0;
    }
    while j < c.provides.len()
        invariant
            j <= c.provides@.len(),
            c@.provides.len() > 0 ==> j >= 1,
            out@ == o + provides_edges(c@, s@, j as int),
        decreases c.provides@.len() - j,
    {
        let b = &c.provides[j];
        assert(c@.provides[j as int] == b@);
        let ghost before = out@;
        let id = sanitize_id(b.name.as_str());
        put(out, "    \"component:");
        put(out, c.name.as_str());
        put(out, "\" -> \"_anchor:");
        put(out, b.name.as_str());
        put(out, "\" [color=\"");
        put(out, s.provides_color);
        put(out, "\" label=\"provides\" lhead=\"cluster_");
        put(out, id.as_str());
        put(out, "\"]\n");
        assert(out@ =~= before + provides_edge(c@, b@, s@));
        assert(out@ =~= o + provides_edges(c@, s@, j + 1));
        j = j + 1;
    }
    let ghost o2 = out@;
    let mut k: usize = 0;
    proof {
        assert(o2 + requires_edges(c@, s@, 0) =~= o2);
    }
    while k < c.requires.len()
        invariant
            k <= c.requires@.len(),
            out@ == o2 + requires_edges(c@, s@, k as int),
        decreases c.requires@.len() - k,
    {
        let b = &c.requires[k];
        assert(c@.requires[k as int] == b@);
        let ghost before = out@;
        let id = sanitize_id(b.name.as_str());
        put(out, "    \"component:");
        put(out, c.name.as_str());
        put(out, "\" -> \"_anchor:");
        put(out, b.name.as_str());
        put(out, "\" [color=\"");
        put(out, s.requires_color);
        put(out, "\" lhead=\"cluster_");
        put(out, id.as_str());
        put(out, "\"]\n");
        assert(out@ =~= before + requires_edge(c@, b@, s@));
        assert(out@ =~= o2 + requires_edges(c@, s@, k + 1));
        k = k + 1;
    }
    assert(o2 == o + provides_edges(c@, s@, c@.provides.len() as int));
}

/// The DOT text of a system in the given scheme.
fn render_dot(system: &System, s: &ColorScheme) -> (r: String)
    ensures
        r@ == dot_document(system@, s@),
{
    let ghost sv = system@;
    let ghost cv = sv.components;
    let mut out = String::new();
    write_header(&mut out, system.name.as_str(), s);
    let ghost o1 = out@;
    let mut i: usize = 0;
    proof {
        assert(o1 + clusters(sv, s@, 0) =~= o1);
    }
    while i < system.boundaries.len()
        invariant
            i <= system.boundaries@.len(),
            sv == system@,
            cv == sv.components,
            out@ == o1 + clusters(sv, s@, i as int),
        decreases system.boundaries@.len() - i,
    {
        let b = &system.boundaries[i];
        assert(sv.boundaries[i as int] == b@);
        let ghost before = out@;
        if is_referenced(&system.components, &b.name) {
            write_cluster(&mut out, &system.components, b, s);
        }
        assert(out@ =~= o1 + clusters(sv, s@, i + 1));
        i = i + 1;
    }
    let ghost o2 = out@;
    let mut j: usize = 0;
    proof {
        assert(o2 + free_nodes(cv, s@, 0) =~= o2);
    }
    while j < system.components.len()
        invariant
            j <= system.components@.len(),
            sv == system@,
            cv == sv.components,
            out@ == o2 + free_nodes(cv, s@, j as int),
        decreases system.components@.len() - j,
    {
        let c = &system.components[j];
        assert(cv[j as int] == c@);
        if c.provides.len() == 0 {
            write_node(&mut out, "    ", c, s);
        }
        assert(out@ =~= o2 + free_nodes(cv, s@, j + 1));
        j = j + 1;
    }
    let ghost o3 = out@;
    let mut k: usize = 0;
    proof {
        assert(o3 + edges(cv, s@, 0) =~= o3);
    }
    while k < system.components.len()
        invariant
            k <= system.components@.len(),
            sv == system@,
            cv == sv.components,
            out@ == o3 + edges(cv, s@, k as int),
        decreases system.components@.len() - k,
    {
        let c = &system.components[k];
        assert(cv[k as int] == c@);
        write_edges(&mut out, c, s);
        assert(out@ =~= o3 + edges(cv, s@, k + 1));
        k = k + 1;
    }
    put(&mut out, "}\n");
    assert(out@ =~= dot_document(sv, s@));
    out
}

impl DiagramProvider for GraphvizProvider {
    open spec fn format_name(&self) -> Seq<char> {
        "graphviz"@
    }

    /// No sub-type or `dark` gives the dark scheme, `light` the light
    /// one; any other sub-type is an error.
    open spec fn generated(&self, system: SystemView, sub_type: Option<Seq<char>>) -> Result<Seq<char>, Seq<char>> {
        match sub_type {
            None => Ok(dot_document(system, dark_scheme())),
            Some(t) => if t == "dark"@ {
                Ok(dot_document(system, dark_scheme()))
            } else if t == "light"@ {
                Ok(dot_document(system, light_scheme()))
            } else {
                Err(unknown_graphviz_sub_type(t))
            },
        }
    }

    fn diagram_type(&self) -> (r: &str) {
        "graphviz"
    }

    fn generate(&self, system: &System, diagram_sub_type: Option<&str>) -> (r: Result<String, DiagramError>) {
        let scheme = match diagram_sub_type {
            None => ColorScheme::dark(),
            Some(t) => {
                if str_eq(t, "dark") {
                    ColorScheme::dark()
                } else if str_eq(t, "light") {
                    ColorScheme::light()
                } else {
                    let mut m = owned("Unknown graphviz diagram sub-type: '");
                    push_str(&mut m, t);
                    push_str(&mut m, "'. Valid values: dark, light");
                    return Err(DiagramError { message: m });
                }
            },
        };
        Ok(render_dot(system, &scheme))
    }
}


/// Without a sub-type the Graphviz provider draws the dark scheme: the
/// diagram is the one that `dark` gives.
pub proof fn lemma_dark_is_default(p: GraphvizProvider, system: SystemView)
    ensures
        p.generated(system, None) == p.generated(system, Some("dark"@)),
        p.generated(system, None) == Ok::<Seq<char>, Seq<char>>(dot_document(system, dark_scheme())),
{
}


/// The edge line from a component to a boundary it requires, in a scheme.
proof fn lemma_requires_edges_hold(c: ComponentView, s: SchemeView, n: int, k: int)
    requires
        0 <= k < n <= c.requires.len(),
    ensures
        contains_text(requires_edges(c, s, n), requires_edge(c, c.requires[k], s)),
    decreases n,
{
    if n == k + 1 {
        lemma_contains_middle(requires_edges(c, s, k), requires_edge(c, c.requires[k], s), Seq::empty());
        assert(requires_edges(c, s, k) + requires_edge(c, c.requires[k], s) + Seq::<char>::empty() =~= requires_edges(c, s, n));
    } else {
        lemma_requires_edges_hold(c, s, n - 1, k);
        lemma_contains_within(
            Seq::empty(),
            requires_edges(c, s, n - 1),
            requires_edge(c, c.requires[n - 1], s),
            requires_edge(c, c.requires[k], s),
        );
        assert(Seq::<char>::empty() + requires_edges(c, s, n - 1) + requires_edge(c, c.requires[n - 1], s) =~= requires_edges(c, s, n));
    }
}

proof fn lemma_provides_edges_hold(c: ComponentView, s: SchemeView, n: int, k: int)
    requires
        1 <= k < n <= c.provides.len(),
    ensures
        contains_text(provides_edges(c, s, n), provides_edge(c, c.provides[k], s)),
    decreases n,
{
    if n == k + 1 {
        lemma_contains_middle(provides_edges(c, s, k), provides_edge(c, c.provides[k], s), Seq::empty());
        assert(provides_edges(c, s, k) + provides_edge(c, c.provides[k], s) + Seq::<char>::empty() =~= provides_edges(c, s, n));
    } else {
        lemma_provides_edges_hold(c, s, n - 1, k);
        lemma_contains_within(
            Seq::empty(),
            provides_edges(c, s, n - 1),
            provides_edge(c, c.provides[n - 1], s),
            provides_edge(c, c.provides[k], s),
        );
        assert(Seq::<char>::empty() + provides_edges(c, s, n - 1) + provides_edge(c, c.provides[n - 1], s) =~= provides_edges(c, s, n));
    }
}

/// The edges of the first `n` components hold whatever the edges of one of
/// them hold.
proof fn lemma_edges_hold(cs: Seq<ComponentView>, s: SchemeView, n: int, i: int, needle: Seq<char>)
    requires
        0 <= i < n <= cs.len(),
        contains_text(provides_edges(cs[i], s, cs[i].provides.len() as int), needle) || contains_text(
            requires_edges(cs[i], s, cs[i].requires.len() as int),
            needle,
        ),
    ensures
        contains_text(edges(cs, s, n), needle),
    decreases n,
{
    let p = provides_edges(cs[n - 1], s, cs[n - 1].provides.len() as int);
    let r = requires_edges(cs[n - 1], s, cs[n - 1].requires.len() as int);
    if n == i + 1 {
        if contains_text(p, needle) {
            lemma_contains_within(edges(cs, s, n - 1), p, r, needle);
        } else {
            lemma_contains_within(edges(cs, s, n - 1) + p, r, Seq::empty(), needle);
            assert(edges(cs, s, n - 1) + p + r + Seq::<char>::empty() =~= edges(cs, s, n));
        }
    } else {
        lemma_edges_hold(cs, s, n - 1, i, needle);
        lemma_contains_within(Seq::empty(), edges(cs, s, n - 1), p + r, needle);
        assert(Seq::<char>::empty() + edges(cs, s, n - 1) + (p + r) =~= edges(cs, s, n));
    }
}

/// Every dependency of a component is drawn: in either scheme, for each
/// boundary `b` that a component `c` requires, the DOT text holds the
/// edge from `component:<c>` to `_anchor:<b>` into `b`'s cluster; and for
/// each boundary it provides other than the first (in whose cluster the
/// component is drawn), the edge labelled `provides`.
pub proof fn lemma_every_link_is_drawn(sys: SystemView, s: SchemeView, i: int, k: int)
    requires
        0 <= i < sys.components.len(),
    ensures
        0 <= k < sys.components[i].requires.len() ==> contains_text(
            dot_document(sys, s),
            "    \"component:"@ + sys.components[i].name + "\" -> \"_anchor:"@ + sys.components[i].requires[k].name
                + "\" [color=\""@ + s.requires_color + "\" lhead=\"cluster_"@ + sanitized(
                sys.components[i].requires[k].name,
            ) + "\"]\n"@,
        ),
        1 <= k < sys.components[i].provides.len() ==> contains_text(
            dot_document(sys, s),
            "    \"component:"@ + sys.components[i].name + "\" -> \"_anchor:"@ + sys.components[i].provides[k].name
                + "\" [color=\""@ + s.provides_color + "\" label=\"provides\" lhead=\"cluster_"@ + sanitized(
                sys.components[i].provides[k].name,
            ) + "\"]\n"@,
        ),
{
    let cs = sys.components;
    let c = cs[i];
    let n = cs.len() as int;
    let head = dot_header(sys.name, s) + clusters(sys, s, sys.boundaries.len() as int) + free_nodes(cs, s, n);
    if 0 <= k < c.requires.len() {
        let needle = requires_edge(c, c.requires[k], s);
        lemma_requires_edges_hold(c, s, c.requires.len() as int, k);
        lemma_edges_hold(cs, s, n, i, needle);
        lemma_contains_within(head, edges(cs, s, n), "}\n"@, needle);
    }
    if 1 <= k < c.provides.len() {
        let needle = provides_edge(c, c.provides[k], s);
        lemma_provides_edges_hold(c, s, c.provides.len() as int, k);
        lemma_edges_hold(cs, s, n, i, needle);
        lemma_contains_within(head, edges(cs, s, n), "}\n"@, needle);
    }
}


/// The line that draws a component as a box, indented by `ind`: labelled
/// with its name and, below it, its technology in brackets.
pub open spec fn component_box(ind: Seq<char>, c: ComponentView, s: SchemeView) -> Seq<char> {
    ind + "\"component:"@ + c.name + "\" [shape=box style=\"filled,rounded\" fillcolor=\""@ + s.node_fill
        + "\" fontcolor=\""@ + s.node_fg + "\" color=\""@ + s.node_border + "\" label=\""@ + c.name
        + match c.technology {
        Some(t) => "\\n["@ + t + "]"@,
        None => Seq::empty(),
    } + "\"]\n"@
}

proof fn lemma_box_is_node_line(ind: Seq<char>, c: ComponentView, s: SchemeView)
    ensures
        component_box(ind, c, s) == node_line(ind, c, s),
{
    match c.technology {
        Some(t) => {
            assert(c.name + "\\n["@ + t + "]"@ =~= c.name + ("\\n["@ + t + "]"@));
        },
        None => {
            assert(c.name + Seq::<char>::empty() =~= c.name);
        },
    }
    assert(component_box(ind, c, s) =~= node_line(ind, c, s));
}

proof fn lemma_free_nodes_hold(cs: Seq<ComponentView>, s: SchemeView, n: int, i: int)
    requires
        0 <= i < n <= cs.len(),
        cs[i].provides.len() == 0,
    ensures
        contains_text(free_nodes(cs, s, n), node_line("    "@, cs[i], s)),
    decreases n,
{
    let last = if cs[n - 1].provides.len() == 0 {
        node_line("    "@, cs[n - 1], s)
    } else {
        Seq::empty()
    };
    if n == i + 1 {
        lemma_contains_middle(free_nodes(cs, s, n - 1), last, Seq::empty());
        assert(free_nodes(cs, s, n - 1) + last + Seq::<char>::empty() =~= free_nodes(cs, s, n));
    } else {
        lemma_free_nodes_hold(cs, s, n - 1, i);
        lemma_contains_within(Seq::empty(), free_nodes(cs, s, n - 1), last, node_line("    "@, cs[i], s));
        assert(Seq::<char>::empty() + free_nodes(cs, s, n - 1) + last =~= free_nodes(cs, s, n));
    }
}

proof fn lemma_members_hold(cs: Seq<ComponentView>, s: SchemeView, name: Seq<char>, n: int, i: int)
    requires
        0 <= i < n <= cs.len(),
        first_provides(cs[i], name),
    ensures
        contains_text(cluster_members(cs, s, name, n), node_line("        "@, cs[i], s)),
    decreases n,
{
    let last = if first_provides(cs[n - 1], name) {
        node_line("        "@, cs[n - 1], s)
    } else {
        Seq::empty()
    };
    if n == i + 1 {
        lemma_contains_middle(cluster_members(cs, s, name, n - 1), last, Seq::empty());
        assert(cluster_members(cs, s, name, n - 1) + last + Seq::<char>::empty() =~= cluster_members(cs, s, name, n));
    } else {
        lemma_members_hold(cs, s, name, n - 1, i);
        lemma_contains_within(Seq::empty(), cluster_members(cs, s, name, n - 1), last, node_line("        "@, cs[i], s));
        assert(Seq::<char>::empty() + cluster_members(cs, s, name, n - 1) + last =~= cluster_members(cs, s, name, n));
    }
}

proof fn lemma_clusters_hold(sys: SystemView, s: SchemeView, n: int, m: int, needle: Seq<char>)
    requires
        0 <= m < n <= sys.boundaries.len(),
        referenced(sys.components, sys.boundaries[m].name),
        contains_text(cluster(sys.components, sys.boundaries[m], s), needle),
    ensures
        contains_text(clusters(sys, s, n), needle),
    decreases n,
{
    let last = if referenced(sys.components, sys.boundaries[n - 1].name) {
        cluster(sys.components, sys.boundaries[n - 1], s)
    } else {
        Seq::empty()
    };
    if n == m + 1 {
        lemma_contains_within(clusters(sys, s, n - 1), last, Seq::empty(), needle);
        assert(clusters(sys, s, n - 1) + last + Seq::<char>::empty() =~= clusters(sys, s, n));
    } else {
        lemma_clusters_hold(sys, s, n - 1, m, needle);
        lemma_contains_within(Seq::empty(), clusters(sys, s, n - 1), last, needle);
        assert(Seq::<char>::empty() + clusters(sys, s, n - 1) + last =~= clusters(sys, s, n));
    }
}

/// Every component is drawn, with its name and technology: one that
/// provides nothing as a box at the top level of the diagram, and one
/// whose first provided boundary is a boundary of the system as a box
/// inside that boundary's cluster.
pub proof fn lemma_every_component_is_drawn(sys: SystemView, s: SchemeView, i: int, m: int)
    requires
        0 <= i < sys.components.len(),
    ensures
        sys.components[i].provides.len() == 0 ==> contains_text(
            dot_document(sys, s),
            component_box("    "@, sys.components[i], s),
        ),
        0 <= m < sys.boundaries.len() && sys.components[i].provides.len() > 0
            && sys.components[i].provides[0].name == sys.boundaries[m].name ==> contains_text(
            dot_document(sys, s),
            component_box("        "@, sys.components[i], s),
        ),
{
    let cs = sys.components;
    let c = cs[i];
    let n = cs.len() as int;
    let h = dot_header(sys.name, s);
    let cl = clusters(sys, s, sys.boundaries.len() as int);
    let fr = free_nodes(cs, s, n);
    let ed = edges(cs, s, n);
    let end = "}\n"@;
    assert(dot_document(sys, s) == h + cl + fr + ed + end);
    if c.provides.len() == 0 {
        let needle = node_line("    "@, c, s);
        lemma_box_is_node_line("    "@, c, s);
        lemma_free_nodes_hold(cs, s, n, i);
        lemma_contains_within(h + cl, fr, ed + end, needle);
        assert(h + cl + fr + (ed + end) =~= h + cl + fr + ed + end);
    }
    if 0 <= m < sys.boundaries.len() && c.provides.len() > 0 && c.provides[0].name == sys.boundaries[m].name {
        let b = sys.boundaries[m];
        let needle = node_line("        "@, c, s);
        lemma_box_is_node_line("        "@, c, s);
        assert(mentions(cs[i], b.name)) by {
            assert(cs[i].provides[0].name == b.name);
        }
        assert(referenced(cs, b.name));
        lemma_members_hold(cs, s, b.name, n, i);
        let members = cluster_members(cs, s, b.name, n);
        lemma_contains_within(cluster_head(b, s), members, "    }\n"@ + "\n"@, needle);
        assert(cluster_head(b, s) + members + ("    }\n"@ + "\n"@) =~= cluster(cs, b, s));
        lemma_clusters_hold(sys, s, sys.boundaries.len() as int, m, needle);
        lemma_contains_within(h, cl, fr + ed + end, needle);
        assert(h + cl + (fr + ed + end) =~= h + cl + fr + ed + end);
    }
}

} // verus!
