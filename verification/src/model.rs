//! The architecture model that parsing produces: a system, its boundaries,
//! and its components linked to the boundaries they provide and require;
//! and the errors that carry a file and a line.
use crate::text::{decimal, decimal_string, owned, push_str};
use std::sync::Arc;
use vstd::prelude::*;

verus! {

/// An architectural boundary — an interface or contract between components.
#[derive(Debug)]
pub struct Boundary {
    pub name: String,
    pub exposure: Option<String>,
    pub specification_path: Option<String>,
    pub specification_type: Option<String>,
    /// Line number of the boundary block (1-based).
    pub line: Option<usize>,
}

/// A component — a building block of the system.
///
/// Provides and requires boundaries through shared references to them,
/// mirroring the `boundaries.provides` and `boundaries.requires` fields.
#[derive(Debug)]
pub struct Component {
    pub name: String,
    pub technology: Option<String>,
    /// Boundaries this component exposes.
    pub provides: Vec<Arc<Boundary>>,
    /// Boundaries this component depends on.
    pub requires: Vec<Arc<Boundary>>,
    /// Line number of the component block (1-based).
    pub line: Option<usize>,
}

/// A parsed CABIDL system — the root of the architecture model.
#[derive(Debug)]
pub struct System {
    pub name: String,
    pub boundaries: Vec<Arc<Boundary>>,
    pub components: Vec<Arc<Component>>,
    /// Line number of the system block (1-based).
    pub line: Option<usize>,
}

/// A validation error with location context.
///
/// Renders as `file:line: message` when a line number is present,
/// or `file: message` when it is not.
#[derive(Debug)]
pub struct ValidationError {
    pub message: String,
    pub file: String,
    pub line: Option<usize>,
}

pub open spec fn opt_view(o: Option<String>) -> Option<Seq<char>> {
    match o {
        Some(s) => Some(s@),
        None => None,
    }
}

pub struct BoundaryView {
    pub name: Seq<char>,
    pub exposure: Option<Seq<char>>,
    pub specification_path: Option<Seq<char>>,
    pub specification_type: Option<Seq<char>>,
    pub line: Option<usize>,
}

pub struct ComponentView {
    pub name: Seq<char>,
    pub technology: Option<Seq<char>>,
    pub provides: Seq<BoundaryView>,
    pub requires: Seq<BoundaryView>,
    pub line: Option<usize>,
}

pub struct SystemView {
    pub name: Seq<char>,
    pub boundaries: Seq<BoundaryView>,
    pub components: Seq<ComponentView>,
    pub line: Option<usize>,
}

pub struct ErrorView {
    pub message: Seq<char>,
    pub file: Seq<char>,
    pub line: Option<usize>,
}

pub open spec fn boundary_views(bs: Seq<Arc<Boundary>>) -> Seq<BoundaryView> {
    bs.map_values(|b: Arc<Boundary>| b@)
}

pub open spec fn component_views(cs: Seq<Arc<Component>>) -> Seq<ComponentView> {
    cs.map_values(|c: Arc<Component>| c@)
}

pub open spec fn error_views(es: Seq<ValidationError>) -> Seq<ErrorView> {
    es.map_values(|e: ValidationError| e@)
}

impl View for Boundary {
    type V = BoundaryView;

    open spec fn view(&self) -> BoundaryView {
        BoundaryView {
            name: self.name@,
            exposure: opt_view(self.exposure),
            specification_path: opt_view(self.specification_path),
            specification_type: opt_view(self.specification_type),
            line: self.line,
        }
    }
}

impl View for Component {
    type V = ComponentView;

    open spec fn view(&self) -> ComponentView {
        ComponentView {
            name: self.name@,
            technology: opt_view(self.technology),
            provides: boundary_views(self.provides@),
            requires: boundary_views(self.requires@),
            line: self.line,
        }
    }
}

impl View for System {
    type V = SystemView;

    open spec fn view(&self) -> SystemView {
        SystemView {
            name: self.name@,
            boundaries: boundary_views(self.boundaries@),
            components: component_views(self.components@),
            line: self.line,
        }
    }
}

impl View for ValidationError {
    type V = ErrorView;

    open spec fn view(&self) -> ErrorView {
        ErrorView { message: self.message@, file: self.file@, line: self.line }
    }
}

/// `file:line: message`, or `file: message` without a line.
pub open spec fn error_text(e: ErrorView) -> Seq<char> {
    match e.line {
        Some(l) => e.file + ":"@ + decimal(l as nat) + ": "@ + e.message,
        None => e.file + ": "@ + e.message,
    }
}

impl ValidationError {
    /// The error as a diagnostic line: `file:line: message` when a line
    /// number is present, `file: message` when it is not.
    pub fn to_string(&self) -> (s: String)
        ensures
            s@ == error_text(self@),
    {
        let mut s = owned(self.file.as_str());
        match self.line {
            Some(l) => {
                push_str(&mut s, ":");
                let d = decimal_string(l);
                push_str(&mut s, d.as_str());
                push_str(&mut s, ": ");
            },
            None => {
                push_str(&mut s, ": ");
            },
        }
        push_str(&mut s, self.message.as_str());
        s
    }
}

/// Another handle on the same shared value (`Arc::clone`).
#[verifier::external_body]
pub(crate) fn share<T>(a: &Arc<T>) -> (r: Arc<T>)
    ensures
        r == *a,
{
    Arc::clone(a)
}

} // verus!
