use cabidl::graphviz_nodes::GraphvizProvider;
use cabidl::model::{Boundary, Component, System};
use std::sync::Arc;

#[test]
fn lib_diagram_type_returns_graphviz() {
    let provider = GraphvizProvider;
    assert_eq!(provider.diagram_type(), "graphviz");
}

#[test]
fn lib_generate_minimal_system() {
    let system = System {
        name: "test".to_string(),
        boundaries: vec![],
        components: vec![],
        line: None,
    };
    let provider = GraphvizProvider;
    let result = provider.generate(&system).unwrap();
    assert!(result.contains("digraph \"test\""));
    assert!(result.contains("bgcolor=\"#1e1e2e\""));
}

#[test]
fn lib_generate_with_components_and_boundaries() {
    let boundary = Arc::new(Boundary {
        name: "Api".to_string(),
        exposure: Some("internal".to_string()),
        specification_path: None,
        specification_type: None,
        line: None,
    });
    let component = Arc::new(Component {
        name: "Server".to_string(),
        technology: Some("Rust".to_string()),
        provides: vec![Arc::clone(&boundary)],
        requires: vec![],
        line: None,
    });
    let system = System {
        name: "test".to_string(),
        boundaries: vec![boundary],
        components: vec![component],
        line: None,
    };

    let provider = GraphvizProvider;
    let result = provider.generate(&system).unwrap();

    assert!(result.contains("\"component:Server\""));
    assert!(result.contains("Server\\n[Rust]"));
    assert!(result.contains("\"boundary:Api\""));
    assert!(result.contains("\"component:Server\" -> \"boundary:Api\""));
    assert!(result.contains("provides"));
}

#[test]
fn lib_generate_external_boundary_distinguished() {
    let boundary = Arc::new(Boundary {
        name: "PublicApi".to_string(),
        exposure: Some("external".to_string()),
        specification_path: None,
        specification_type: None,
        line: None,
    });
    let component = Arc::new(Component {
        name: "Gateway".to_string(),
        technology: None,
        provides: vec![Arc::clone(&boundary)],
        requires: vec![],
        line: None,
    });
    let system = System {
        name: "test".to_string(),
        boundaries: vec![boundary],
        components: vec![component],
        line: None,
    };

    let provider = GraphvizProvider;
    let result = provider.generate(&system).unwrap();

    // External boundaries should have red-tinted styling
    assert!(result.contains("\"boundary:PublicApi\" [shape=ellipse style=\"filled,bold\""));
    assert!(result.contains("#f38ba8"));
}

#[test]
fn generate_requires_edges_are_dashed() {
    let boundary = Arc::new(Boundary {
        name: "Database".to_string(),
        exposure: Some("internal".to_string()),
        specification_path: None,
        specification_type: None,
        line: None,
    });
    let component = Arc::new(Component {
        name: "App".to_string(),
        technology: None,
        provides: vec![],
        requires: vec![Arc::clone(&boundary)],
        line: None,
    });
    let system = System {
        name: "test".to_string(),
        boundaries: vec![boundary],
        components: vec![component],
        line: None,
    };

    let provider = GraphvizProvider;
    let result = provider.generate(&system).unwrap();

    assert!(result.contains("\"component:App\" -> \"boundary:Database\""));
    assert!(result.contains("style=dashed"));
    assert!(result.contains("requires"));
}

#[test]
fn lib_generate_same_name_boundary_and_component_no_collision() {
    let boundary = Arc::new(Boundary {
        name: "Diagram".to_string(),
        exposure: Some("internal".to_string()),
        specification_path: None,
        specification_type: None,
        line: None,
    });
    let component = Arc::new(Component {
        name: "Diagram".to_string(),
        technology: Some("Rust".to_string()),
        provides: vec![Arc::clone(&boundary)],
        requires: vec![],
        line: None,
    });
    let system = System {
        name: "test".to_string(),
        boundaries: vec![boundary],
        components: vec![component],
        line: None,
    };

    let provider = GraphvizProvider;
    let result = provider.generate(&system).unwrap();

    // Both should exist as distinct nodes
    assert!(result.contains("\"boundary:Diagram\""));
    assert!(result.contains("\"component:Diagram\""));
    assert!(result.contains("\"component:Diagram\" -> \"boundary:Diagram\""));
}
