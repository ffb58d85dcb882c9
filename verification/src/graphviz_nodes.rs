//! Graphviz DOT diagrams in which each boundary that a component names is
//! an ellipse node of its own, and every provided or required boundary is
//! an edge from the component's box.
use crate::diagram_provider::{is_external, is_referenced, referenced, DiagramError};
use crate::graphviz::node_label;
use crate::model::{boundary_views, Boundary, BoundaryView, Component, ComponentView, System, SystemView};
use crate::text::{push_str, str_eq};
use std::sync::Arc;
use vstd::prelude::*;

verus! {

/// The Graphviz diagram provider (`graphviz`) that draws boundaries as
/// nodes, in one dark scheme.
pub struct GraphvizProvider;

pub open spec fn nodes_header(name: Seq<char>) -> Seq<char> {
    "digraph \""@ + name + "\" {\n"@ + "    bgcolor=\"#1e1e2e\"\n"@ + "    fontcolor=\"#cdd6f4\"\n"@
        + "    fontname=\"Helvetica\"\n"@ + "    label=\""@ + name + "\"\n"@ + "    labelloc=t\n"@
        + "    fontsize=20\n"@ + "\n"@
        + "    node [fontname=\"Helvetica\" fontsize=12 fontcolor=\"#cdd6f4\"]\n"@
        + "    edge [fontname=\"Helvetica\" fontsize=10 fontcolor=\"#a6adc8\"]\n"@ + "\n"@
}

/// The node of a boundary: bold and red when it is external.
pub open spec fn boundary_node(b: BoundaryView) -> Seq<char> {
    if is_external(b) {
        "    \"boundary:"@ + b.name
            + "\" [shape=ellipse style=\"filled,bold\" fillcolor=\"#1e1e2e\" fontcolor=\"#f38ba8\" color=\"#f38ba8\" label=\""@
            + b.name + "\"]\n"@
    } else {
        "    \"boundary:"@ + b.name
            + "\" [shape=ellipse style=filled fillcolor=\"#1e1e2e\" fontcolor=\"#a6adc8\" color=\"#585b70\" label=\""@
            + b.name + "\"]\n"@
    }
}

/// The nodes of the first `n` boundaries that some component names.
pub open spec fn boundary_nodes(sys: SystemView, n: int) -> Seq<char>
    decreases n,
{
    if n <= 0 || n > sys.boundaries.len() {
        Seq::empty()
    } else {
        boundary_nodes(sys, n - 1) + if referenced(sys.components, sys.boundaries[n - 1].name) {
            boundary_node(sys.boundaries[n - 1])
        } else {
            Seq::empty()
        }
    }
}

/// The box of a component.
pub open spec fn component_box(c: ComponentView) -> Seq<char> {
    "    \"component:"@ + c.name
        + "\" [shape=box style=\"filled,rounded\" fillcolor=\"#313244\" fontcolor=\"#cdd6f4\" color=\"#585b70\" label=\""@
        + node_label(c) + "\"]\n"@
}

/// Edges from a component to the first `n` boundaries of `bs`, with the
/// attributes `attrs`.
pub open spec fn edge_lines(name: Seq<char>, bs: Seq<BoundaryView>, attrs: Seq<char>, n: int) -> Seq<char>
    decreases n,
{
    if n <= 0 || n > bs.len() {
        Seq::empty()
    } else {
        edge_lines(name, bs, attrs, n - 1) + "    \"component:"@ + name + "\" -> \"boundary:"@ + bs[n
            - 1].name + "\" ["@ + attrs + "]\n"@
    }
}

pub open spec fn provides_attrs() -> Seq<char> {
    "color=\"#a6e3a1\" label=\"provides\""@
}

pub open spec fn requires_attrs() -> Seq<char> {
    "color=\"#89b4fa\" style=dashed label=\"requires\""@
}

/// A component's box and its edges: solid to what it provides, dashed to
/// what it requires.
pub open spec fn component_part(c: ComponentView) -> Seq<char> {
    component_box(c) + edge_lines(c.name, c.provides, provides_attrs(), c.provides.len() as int)
        + edge_lines(c.name, c.requires, requires_attrs(), c.requires.len() as int)
}

/// The boxes and edges of the first `n` components.
pub open spec fn component_parts(cs: Seq<ComponentView>, n: int) -> Seq<char>
    decreases n,
{
    if n <= 0 || n > cs.len() {
        Seq::empty()
    } else {
        component_parts(cs, n - 1) + component_part(cs[n - 1])
    }
}

/// The DOT text of a system.
pub open spec fn nodes_document(sys: SystemView) -> Seq<char> {
    nodes_header(sys.name) + boundary_nodes(sys, sys.boundaries.len() as int) + "\n"@
        + component_parts(sys.components, sys.components.len() as int) + "}\n"@
}

fn write_header(out: &mut String, name: &str)
    ensures
        final(out)@ == old(out)@ + nodes_header(name@),
{
    let ghost o = out@;
    push_str(out, "digraph \"");
    push_str(out, name);
    push_str(out, "\" {\n");
    push_str(out, "    bgcolor=\"#1e1e2e\"\n");
    push_str(out, "    fontcolor=\"#cdd6f4\"\n");
    push_str(out, "    fontname=\"Helvetica\"\n");
    push_str(out, "    label=\"");
    push_str(out, name);
    push_str(out, "\"\n");
    push_str(out, "    labelloc=t\n");
    push_str(out, "    fontsize=20\n");
    push_str(out, "\n");
    push_str(out, "    node [fontname=\"Helvetica\" fontsize=12 fontcolor=\"#cdd6f4\"]\n");
    push_str(out, "    edge [fontname=\"Helvetica\" fontsize=10 fontcolor=\"#a6adc8\"]\n");
    push_str(out, "\n");
    assert(out@ =~= o + nodes_header(name@));
}

fn write_boundary_node(out: &mut String, b: &Boundary)
    ensures
        final(out)@ == old(out)@ + boundary_node(b@),
{
    let ghost o = out@;
    let external = match &b.exposure {
        Some(e) => str_eq(e.as_str(), "external"),
        None => false,
    };
    push_str(out, "    \"boundary:");
    push_str(out, b.name.as_str());
    if external {
        push_str(
            out,
            "\" [shape=ellipse style=\"filled,bold\" fillcolor=\"#1e1e2e\" fontcolor=\"#f38ba8\" color=\"#f38ba8\" label=\"",
        );
    } else {
        push_str(
            out,
            "\" [shape=ellipse style=filled fillcolor=\"#1e1e2e\" fontcolor=\"#a6adc8\" color=\"#585b70\" label=\"",
        );
    }
    push_str(out, b.name.as_str());
    push_str(out, "\"]\n");
    assert(out@ =~= o + boundary_node(b@));
}

fn write_edge_lines(out: &mut String, name: &str, bs: &Vec<Arc<Boundary>>, attrs: &str)
    ensures
        final(out)@ == old(out)@ + edge_lines(name@, boundary_views(bs@), attrs@, bs@.len() as int),
{
    let ghost o = out@;
    let ghost bv = boundary_views(bs@);
    let mut i: usize = 0;
    while i < bs.len()
        invariant
            i <= bs@.len(),
            bv == boundary_views(bs@),
            out@ == o + edge_lines(name@, bv, attrs@, i as int),
        decreases bs@.len() - i,
    {
        assert(bv[i as int] == bs@[i as int]@);
        push_str(out, "    \"component:");
        push_str(out, name);
        push_str(out, "\" -> \"boundary:");
        push_str(out, bs[i].name.as_str());
        push_str(out, "\" [");
        push_str(out, attrs);
        push_str(out, "]\n");
        assert(out@ =~= o + edge_lines(name@, bv, attrs@, i + 1));
        i = i + 1;
    }
}

fn write_component(out: &mut String, c: &Component)
    ensures
        final(out)@ == old(out)@ + component_part(c@),
{
    let ghost o = out@;
    push_str(out, "    \"component:");
    push_str(out, c.name.as_str());
    push_str(
        out,
        "\" [shape=box style=\"filled,rounded\" fillcolor=\"#313244\" fontcolor=\"#cdd6f4\" color=\"#585b70\" label=\"",
    );
    match &c.technology {
        Some(t) => {
            push_str(out, c.name.as_str());
            push_str(out, "\\n[");
            push_str(out, t.as_str());
            push_str(out, "]");
        },
        None => {
            push_str(out, c.name.as_str());
        },
    }
    push_str(out, "\"]\n");
    assert(out@ =~= o + component_box(c@));
    let ghost o2 = out@;
    write_edge_lines(out, c.name.as_str(), &c.provides, "color=\"#a6e3a1\" label=\"provides\"");
    write_edge_lines(out, c.name.as_str(), &c.requires, "color=\"#89b4fa\" style=dashed label=\"requires\"");
    assert(out@ =~= o + component_part(c@));
}

impl GraphvizProvider {
    /// The diagram type identifier: `graphviz`.
    pub fn diagram_type(&self) -> (r: &str)
        ensures
            r@ == "graphviz"@,
    {
        "graphviz"
    }

    /// The DOT text of a system; it never fails.
    pub fn generate(&self, system: &System) -> (r: Result<String, DiagramError>)
        ensures
            r matches Ok(s) && s@ == nodes_document(system@),
    {
        let ghost sv = system@;
        let ghost cv = sv.components;
        let mut out = String::new();
        write_header(&mut out, system.name.as_str());
        let ghost o1 = out@;
        let mut i: usize = 0;
        while i < system.boundaries.len()
            invariant
                i <= system.boundaries@.len(),
                sv == system@,
                out@ == o1 + boundary_nodes(sv, i as int),
            decreases system.boundaries@.len() - i,
        {
            let b = &system.boundaries[i];
            assert(sv.boundaries[i as int] == b@);
            if is_referenced(&system.components, &b.name) {
                write_boundary_node(&mut out, b);
            }
            assert(out@ =~= o1 + boundary_nodes(sv, i + 1));
            i = i + 1;
        }
        push_str(&mut out, "\n");
        let ghost o2 = out@;
        let mut j: usize = 0;
        while j < system.components.len()
            invariant
                j <= system.components@.len(),
                sv == system@,
                cv == sv.components,
                out@ == o2 + component_parts(cv, j as int),
            decreases system.components@.len() - j,
        {
            let c = &system.components[j];
            assert(cv[j as int] == c@);
            write_component(&mut out, c);
            assert(out@ =~= o2 + component_parts(cv, j + 1));
            j = j + 1;
        }
        push_str(&mut out, "}\n");
        assert(out@ =~= nodes_document(sv));
        Ok(out)
    }
}

} // verus!
