use cabidl::diagram_provider::DiagramProvider;
use cabidl::graphviz::GraphvizProvider;
use cabidl::model::{Boundary, Component, System};
use std::sync::Arc;

#[test]
fn diagram_type_returns_graphviz() {
    let provider = GraphvizProvider;
    assert_eq!(provider.diagram_type(), "graphviz");
}

#[test]
fn generate_minimal_system() {
    let system = System {
        name: "test".to_string(),
        boundaries: vec![],
        components: vec![],
        line: None,
    };
    let provider = GraphvizProvider;
    let result = provider.generate(&system, None).unwrap();
    assert!(result.contains("digraph \"test\""));
    assert!(result.contains("bgcolor=\"#1e1e2e\""));
    assert!(result.contains("compound=true"));
}

#[test]
fn generate_dark_is_default() {
    let system = System {
        name: "test".to_string(),
        boundaries: vec![],
        components: vec![],
        line: None,
    };
    let provider = GraphvizProvider;
    let default = provider.generate(&system, None).unwrap();
    let explicit_dark = provider.generate(&system, Some("dark")).unwrap();
    assert_eq!(default, explicit_dark);
}

#[test]
fn generate_light_scheme() {
    let system = System {
        name: "test".to_string(),
        boundaries: vec![],
        components: vec![],
        line: None,
    };
    let provider = GraphvizProvider;
    let result = provider.generate(&system, Some("light")).unwrap();
    assert!(result.contains("bgcolor=\"#ffffff\""));
    assert!(result.contains("fontcolor=\"#1e1e2e\""));
}

#[test]
fn generate_unknown_sub_type_returns_error() {
    let system = System {
        name: "test".to_string(),
        boundaries: vec![],
        components: vec![],
        line: None,
    };
    let provider = GraphvizProvider;
    let result = provider.generate(&system, Some("neon"));
    assert!(result.is_err());
    assert!(result.unwrap_err().message.contains("Unknown graphviz diagram sub-type"));
}

#[test]
fn generate_with_components_and_boundaries() {
    let boundary = Arc::new(Boundary {
        name: "Api".to_string(),
        exposure: Some("internal".to_string()),
        specification_path: None,
        specification_type: None,
        line: None,
    });
    let component = Arc::new(Component {
        name: "Server".to_string(),
        technology: Some("Rust".to_string()),
        provides: vec![Arc::clone(&boundary)],
        requires: vec![],
        line: None,
    });
    let system = System {
        name: "test".to_string(),
        boundaries: vec![boundary],
        components: vec![component],
        line: None,
    };

    let provider = GraphvizProvider;
    let result = provider.generate(&system, None).unwrap();

    // Component should be inside the Api cluster
    assert!(result.contains("subgraph cluster_Api"));
    assert!(result.contains("\"_anchor:Api\""));
    assert!(result.contains("\"component:Server\""));
    assert!(result.contains("Server\\n[Rust]"));
    // No provides edge needed — component is inside its cluster
    assert!(!result.contains("provides"));
}

#[test]
fn generate_external_boundary_distinguished() {
    let boundary = Arc::new(Boundary {
        name: "PublicApi".to_string(),
        exposure: Some("external".to_string()),
        specification_path: None,
        specification_type: None,
        line: None,
    });
    let component = Arc::new(Component {
        name: "Gateway".to_string(),
        technology: None,
        provides: vec![Arc::clone(&boundary)],
        requires: vec![],
        line: None,
    });
    let system = System {
        name: "test".to_string(),
        boundaries: vec![boundary],
        components: vec![component],
        line: None,
    };

    let provider = GraphvizProvider;
    let result = provider.generate(&system, None).unwrap();

    // External boundaries should have red border and bold style
    assert!(result.contains("subgraph cluster_PublicApi"));
    assert!(result.contains("style=\"rounded,bold\""));
    assert!(result.contains("color=\"#f38ba8\""));
}

#[test]
fn generate_requires_edges_are_solid() {
    let boundary = Arc::new(Boundary {
        name: "Database".to_string(),
        exposure: Some("internal".to_string()),
        specification_path: None,
        specification_type: None,
        line: None,
    });
    let component = Arc::new(Component {
        name: "App".to_string(),
        technology: None,
        provides: vec![],
        requires: vec![Arc::clone(&boundary)],
        line: None,
    });
    let system = System {
        name: "test".to_string(),
        boundaries: vec![boundary],
        components: vec![component],
        line: None,
    };

    let provider = GraphvizProvider;
    let result = provider.generate(&system, None).unwrap();

    assert!(result.contains("\"component:App\" -> \"_anchor:Database\""));
    assert!(result.contains("lhead=\"cluster_Database\""));
    assert!(!result.contains("style=dashed"));
    assert!(!result.contains("label=\"requires\""));
}

#[test]
fn generate_same_name_boundary_and_component_no_collision() {
    let boundary = Arc::new(Boundary {
        name: "Diagram".to_string(),
        exposure: Some("internal".to_string()),
        specification_path: None,
        specification_type: None,
        line: None,
    });
    let component = Arc::new(Component {
        name: "Diagram".to_string(),
        technology: Some("Rust".to_string()),
        provides: vec![Arc::clone(&boundary)],
        requires: vec![],
        line: None,
    });
    let system = System {
        name: "test".to_string(),
        boundaries: vec![boundary],
        components: vec![component],
        line: None,
    };

    let provider = GraphvizProvider;
    let result = provider.generate(&system, None).unwrap();

    // Cluster for the boundary and component node inside it — no collision
    assert!(result.contains("subgraph cluster_Diagram"));
    assert!(result.contains("\"component:Diagram\""));
}

#[test]
fn generate_component_provides_multiple_boundaries() {
    let boundary_a = Arc::new(Boundary {
        name: "Auth".to_string(),
        exposure: Some("internal".to_string()),
        specification_path: None,
        specification_type: None,
        line: None,
    });
    let boundary_b = Arc::new(Boundary {
        name: "Sessions".to_string(),
        exposure: Some("internal".to_string()),
        specification_path: None,
        specification_type: None,
        line: None,
    });
    let component = Arc::new(Component {
        name: "AuthServer".to_string(),
        technology: Some("Rust".to_string()),
        provides: vec![Arc::clone(&boundary_a), Arc::clone(&boundary_b)],
        requires: vec![],
        line: None,
    });
    let system = System {
        name: "test".to_string(),
        boundaries: vec![boundary_a, boundary_b],
        components: vec![component],
        line: None,
    };

    let provider = GraphvizProvider;
    let result = provider.generate(&system, None).unwrap();

    // Component should be inside the first cluster (Auth)
    assert!(result.contains("subgraph cluster_Auth"));
    assert!(result.contains("subgraph cluster_Sessions"));
    // Explicit provides edge to the second boundary
    assert!(result.contains("\"component:AuthServer\" -> \"_anchor:Sessions\""));
    assert!(result.contains("lhead=\"cluster_Sessions\""));
    assert!(result.contains("provides"));
}

#[test]
fn generate_requires_only_component_outside_clusters() {
    let boundary = Arc::new(Boundary {
        name: "Storage".to_string(),
        exposure: Some("internal".to_string()),
        specification_path: None,
        specification_type: None,
        line: None,
    });
    let provider_component = Arc::new(Component {
        name: "DiskStore".to_string(),
        technology: None,
        provides: vec![Arc::clone(&boundary)],
        requires: vec![],
        line: None,
    });
    let consumer_component = Arc::new(Component {
        name: "App".to_string(),
        technology: None,
        provides: vec![],
        requires: vec![Arc::clone(&boundary)],
        line: None,
    });
    let system = System {
        name: "test".to_string(),
        boundaries: vec![boundary],
        components: vec![provider_component, consumer_component],
        line: None,
    };

    let provider = GraphvizProvider;
    let result = provider.generate(&system, None).unwrap();

    // DiskStore should be inside the Storage cluster
    assert!(result.contains("subgraph cluster_Storage"));

    // App should be outside clusters (free-floating) with a requires edge
    assert!(result.contains("\"component:App\" -> \"_anchor:Storage\""));
    assert!(result.contains("lhead=\"cluster_Storage\""));

    // Verify App node is emitted outside the cluster by checking it appears
    // after the cluster closing brace
    let cluster_end = result.find("    }").unwrap();
    let app_node = result.find("\"component:App\" [shape=box").unwrap();
    assert!(app_node > cluster_end);
}
