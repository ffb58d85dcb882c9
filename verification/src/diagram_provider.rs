//! The DiagramProvider boundary: turning a system model into the text of
//! a diagram in one format.
use crate::model::{BoundaryView, Component, ComponentView, System, SystemView};
use std::sync::Arc;
use crate::text::{chars_of, push_char, str_eq};
use vstd::prelude::*;

verus! {

/// An error that occurs during diagram generation.
#[derive(Debug)]
pub struct DiagramError {
    pub message: String,
}

impl DiagramError {
    /// The error's message, as it is displayed.
    pub fn to_string(&self) -> (s: String)
        ensures
            s@ == self.message@,
    {
        self.message.clone()
    }
}

pub open spec fn diagram_view(r: Result<String, DiagramError>) -> Result<Seq<char>, Seq<char>> {
    match r {
        Ok(s) => Ok(s@),
        Err(e) => Err(e.message@),
    }
}

pub open spec fn opt_str_view(o: Option<&str>) -> Option<Seq<char>> {
    match o {
        Some(s) => Some(s@),
        None => None,
    }
}

/// The DiagramProvider boundary trait.
///
/// Each implementer generates diagram content in a specific format
/// (e.g. Graphviz DOT, Mermaid) from a parsed system model. What it
/// generates is described by a spec function of the implementation.
pub trait DiagramProvider {
    /// The format's identifier.
    spec fn format_name(&self) -> Seq<char>;

    /// The diagram text, or the error message, for a system and an
    /// optional sub-type.
    spec fn generated(&self, system: SystemView, sub_type: Option<Seq<char>>) -> Result<Seq<char>, Seq<char>>;

    /// Returns the diagram type identifier (e.g. "graphviz", "mermaid").
    fn diagram_type(&self) -> (r: &str)
        ensures
            r@ == self.format_name(),
    ;

    /// Generate diagram content from a parsed system model.
    ///
    /// - `diagram_sub_type`: Optional sub-type qualifier within the format
    ///   (e.g. "dark"/"light" for Graphviz, "c4"/"class" for Mermaid).
    fn generate(&self, system: &System, diagram_sub_type: Option<&str>) -> (r: Result<
        String,
        DiagramError,
    >)
        ensures
            diagram_view(r) == self.generated(system@, opt_str_view(diagram_sub_type)),
    ;
}

/// Whether a character is alphanumeric as `char::is_alphanumeric` decides
/// it (the Unicode `Alphabetic` or `Numeric` property).
pub uninterp spec fn alphanumeric(c: char) -> bool;

/// `char::is_alphanumeric`. The contract names the result; it does not
/// state the Unicode tables.
#[verifier::external_body]
fn is_alphanumeric(c: char) -> (r: bool)
    ensures
        r == alphanumeric(c),
{
    c.is_alphanumeric()
}

/// A name with every character that is not alphanumeric replaced by `_`.
pub open spec fn sanitized(name: Seq<char>) -> Seq<char> {
    name.map_values(|c: char| if alphanumeric(c) { c } else { '_' })
}

/// Makes a name usable as a diagram identifier: every character that is
/// not alphanumeric becomes `_`.
pub fn sanitize_id(name: &str) -> (r: String)
    ensures
        r@ == sanitized(name@),
{
    let v = chars_of(name);
    let mut r = String::new();
    let mut i: usize = 0;
    while i < v.len()
        invariant
            i <= v@.len(),
            v@ == name@,
            r@ == sanitized(v@).take(i as int),
        decreases v@.len() - i,
    {
        let c = v[i];
        if is_alphanumeric(c) {
            push_char(&mut r, c);
        } else {
            push_char(&mut r, '_');
        }
        assert(sanitized(v@).take(i + 1) =~= sanitized(v@).take(i as int).push(sanitized(v@)[i as int]));
        i = i + 1;
    }
    assert(sanitized(v@).take(v@.len() as int) =~= sanitized(v@));
    r
}

/// Whether a component provides or requires a boundary of this name.
pub open spec fn mentions(c: ComponentView, name: Seq<char>) -> bool {
    (exists|j: int| 0 <= j < c.provides.len() && #[trigger] c.provides[j].name == name)
        || (exists|j: int| 0 <= j < c.requires.len() && #[trigger] c.requires[j].name == name)
}

/// Whether some component provides or requires a boundary of this name.
pub open spec fn referenced(cs: Seq<ComponentView>, name: Seq<char>) -> bool {
    exists|i: int| 0 <= i < cs.len() && #[trigger] mentions(cs[i], name)
}

/// Whether the first boundary a component provides bears this name.
pub open spec fn first_provides(c: ComponentView, name: Seq<char>) -> bool {
    c.provides.len() > 0 && c.provides[0].name == name
}

/// Whether a boundary's exposure is `external`.
pub open spec fn is_external(b: BoundaryView) -> bool {
    b.exposure == Some("external"@)
}

/// Whether a component provides or requires a boundary of this name.
pub fn component_mentions(c: &Component, name: &str) -> (r: bool)
    ensures
        r == mentions(c@, name@),
{
    let mut j: usize = 0;
    while j < c.provides.len()
        invariant
            j <= c.provides@.len(),
            forall|k: int| 0 <= k < j ==> #[trigger] c@.provides[k].name != name@,
        decreases c.provides@.len() - j,
    {
        assert(c@.provides[j as int] == c.provides@[j as int]@);
        if str_eq(c.provides[j].name.as_str(), name) {
            assert(c@.provides[j as int].name == name@);
            return true;
        }
        j = j + 1;
    }
    let mut k: usize = 0;
    while k < c.requires.len()
        invariant
            k <= c.requires@.len(),
            forall|q: int| 0 <= q < c@.provides.len() ==> #[trigger] c@.provides[q].name != name@,
            forall|q: int| 0 <= q < k ==> #[trigger] c@.requires[q].name != name@,
        decreases c.requires@.len() - k,
    {
        assert(c@.requires[k as int] == c.requires@[k as int]@);
        if str_eq(c.requires[k].name.as_str(), name) {
            assert(c@.requires[k as int].name == name@);
            return true;
        }
        k = k + 1;
    }
    false
}

/// Whether some component provides or requires a boundary of this name.
pub fn is_referenced(cs: &Vec<Arc<Component>>, name: &String) -> (r: bool)
    ensures
        r == referenced(crate::model::component_views(cs@), name@),
{
    let ghost cv = crate::model::component_views(cs@);
    let mut i: usize = 0;
    while i < cs.len()
        invariant
            i <= cs@.len(),
            cv == crate::model::component_views(cs@),
            forall|a: int| 0 <= a < i ==> !#[trigger] mentions(cv[a], name@),
        decreases cs@.len() - i,
    {
        assert(cv[i as int] == cs@[i as int]@);
        if component_mentions(&cs[i], name.as_str()) {
            return true;
        }
        i = i + 1;
    }
    false
}


/// A diagram identifier has as many characters as the name it is made
/// from, each alphanumeric or `_`, and keeps every alphanumeric character
/// of the name where it stands.
pub proof fn lemma_sanitized_shape(name: Seq<char>)
    ensures
        sanitized(name).len() == name.len(),
        forall|i: int|
            0 <= i < name.len() ==> (alphanumeric(#[trigger] sanitized(name)[i]) || sanitized(name)[i] == '_'),
        forall|i: int| 0 <= i < name.len() && alphanumeric(name[i]) ==> #[trigger] sanitized(name)[i] == name[i],
{
}

} // verus!
