//! The Diagram boundary: choosing a diagram provider by format and letting
//! it draw the system.
use crate::diagram_provider::{diagram_view, opt_str_view, DiagramError, DiagramProvider};
use crate::model::{System, SystemView};
use crate::text::{owned, push_str, str_eq};
use vstd::prelude::*;

verus! {

/// The Diagram boundary trait.
///
/// Orchestrates diagram generation: selects a DiagramProvider based on
/// the requested type, passes the sub-type through, and generates the
/// diagram content as a string. The caller is responsible for writing
/// the content to a file.
pub trait Diagram {
    /// The diagram text, or the error message, for a system, a format and
    /// an optional sub-type.
    spec fn diagram_result(
        &self,
        system: SystemView,
        diagram_type: Seq<char>,
        sub_type: Option<Seq<char>>,
    ) -> Result<Seq<char>, Seq<char>>;

    /// Generate a diagram from a parsed System model.
    fn generate(&self, system: &System, diagram_type: &str, diagram_sub_type: Option<&str>) -> (r:
        Result<String, DiagramError>)
        ensures
            diagram_view(r) == self.diagram_result(system@, diagram_type@, opt_str_view(diagram_sub_type)),
    ;
}

/// The diagram orchestrator over a list of providers.
pub struct DiagramImpl {
    providers: Vec<Box<dyn DiagramProvider>>,
}

/// The position of the first provider, from `i` on, whose format is
/// `diagram_type`.
pub open spec fn first_provider(ps: Seq<Box<dyn DiagramProvider>>, diagram_type: Seq<char>, i: int) -> Option<int>
    decreases ps.len() - i,
{
    if i < 0 || i >= ps.len() {
        None
    } else if ps[i].format_name() == diagram_type {
        Some(i)
    } else {
        first_provider(ps, diagram_type, i + 1)
    }
}

pub open spec fn unknown_diagram_type(t: Seq<char>) -> Seq<char> {
    "Unknown diagram type: '"@ + t + "'"@
}

impl DiagramImpl {
    /// The providers, in the order in which they are tried.
    pub closed spec fn providers(&self) -> Seq<Box<dyn DiagramProvider>> {
        self.providers@
    }

    pub fn new(providers: Vec<Box<dyn DiagramProvider>>) -> (d: Self)
        ensures
            d.providers() == providers@,
    {
        DiagramImpl { providers }
    }
}

impl Diagram for DiagramImpl {
    /// The first provider of the requested format draws the diagram; with
    /// none, the type is unknown.
    open spec fn diagram_result(
        &self,
        system: SystemView,
        diagram_type: Seq<char>,
        sub_type: Option<Seq<char>>,
    ) -> Result<Seq<char>, Seq<char>> {
        match first_provider(self.providers(), diagram_type, 0) {
            Some(i) => self.providers()[i].generated(system, sub_type),
            None => Err(unknown_diagram_type(diagram_type)),
        }
    }

    fn generate(&self, system: &System, diagram_type: &str, diagram_sub_type: Option<&str>) -> (r:
        Result<String, DiagramError>) {
        let ghost ps = self.providers@;
        let mut i: usize = 0;
        while i < self.providers.len()
            invariant
                i <= ps.len(),
                ps == self.providers@,
                first_provider(ps, diagram_type@, i as int) == first_provider(ps, diagram_type@, 0),
            decreases ps.len() - i,
        {
            let p = &self.providers[i];
            if str_eq(p.diagram_type(), diagram_type) {
                return p.generate(system, diagram_sub_type);
            }
            i = i + 1;
        }
        let mut m = owned("Unknown diagram type: '");
        push_str(&mut m, diagram_type);
        push_str(&mut m, "'");
        Err(DiagramError { message: m })
    }
}


proof fn lemma_first_provider(ps: Seq<Box<dyn DiagramProvider>>, t: Seq<char>, i: int)
    requires
        0 <= i,
    ensures
        first_provider(ps, t, i) matches Some(k) ==> i <= k < ps.len() && ps[k].format_name() == t && forall|j: int|
            i <= j < k ==> #[trigger] ps[j].format_name() != t,
        first_provider(ps, t, i) is None ==> forall|j: int| i <= j < ps.len() ==> #[trigger] ps[j].format_name() != t,
    decreases ps.len() - i,
{
    if i < ps.len() && ps[i].format_name() != t {
        lemma_first_provider(ps, t, i + 1);
    }
}

/// The orchestrator hands a known format to the first provider of that
/// format, passing the sub-type through unchanged, and refuses a format no
/// provider draws.
pub proof fn lemma_diagram_dispatch(d: DiagramImpl, system: SystemView, diagram_type: Seq<char>, sub_type: Option<Seq<char>>)
    ensures
        (exists|k: int| 0 <= k < d.providers().len() && #[trigger] d.providers()[k].format_name() == diagram_type)
            ==> exists|k: int|
            0 <= k < d.providers().len() && d.providers()[k].format_name() == diagram_type && (forall|j: int|
                0 <= j < k ==> #[trigger] d.providers()[j].format_name() != diagram_type) && d.diagram_result(
                system,
                diagram_type,
                sub_type,
            ) == #[trigger] d.providers()[k].generated(system, sub_type),
        (forall|k: int| 0 <= k < d.providers().len() ==> #[trigger] d.providers()[k].format_name() != diagram_type)
            ==> d.diagram_result(system, diagram_type, sub_type) == Err::<Seq<char>, Seq<char>>(
            unknown_diagram_type(diagram_type),
        ),
{
    lemma_first_provider(d.providers(), diagram_type, 0);
    match first_provider(d.providers(), diagram_type, 0) {
        Some(k) => {
            assert(d.providers()[k].format_name() == diagram_type);
        },
        None => {},
    }
}

} // verus!
