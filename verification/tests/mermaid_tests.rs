use cabidl::diagram_provider::DiagramProvider;
use cabidl::mermaid::MermaidProvider;
use cabidl::model::{Boundary, Component, System};
use std::sync::Arc;

#[test]
fn diagram_type_returns_mermaid() {
    let provider = MermaidProvider;
    assert_eq!(provider.diagram_type(), "mermaid");
}

#[test]
fn generate_c4_minimal_system() {
    let system = System {
        name: "test".to_string(),
        boundaries: vec![],
        components: vec![],
        line: None,
    };
    let provider = MermaidProvider;
    let result = provider.generate(&system, None).unwrap();
    assert!(result.contains("C4Context"));
    assert!(result.contains("title test"));
}

#[test]
fn generate_c4_is_default() {
    let system = System {
        name: "test".to_string(),
        boundaries: vec![],
        components: vec![],
        line: None,
    };
    let provider = MermaidProvider;
    let default = provider.generate(&system, None).unwrap();
    let explicit_c4 = provider.generate(&system, Some("c4")).unwrap();
    assert_eq!(default, explicit_c4);
}

#[test]
fn generate_c4_with_boundaries_and_components() {
    let boundary = Arc::new(Boundary {
        name: "Api".to_string(),
        exposure: Some("internal".to_string()),
        specification_path: None,
        specification_type: None,
        line: None,
    });
    let component = Arc::new(Component {
        name: "Server".to_string(),
        technology: Some("Rust".to_string()),
        provides: vec![Arc::clone(&boundary)],
        requires: vec![],
        line: None,
    });
    let system = System {
        name: "test".to_string(),
        boundaries: vec![boundary],
        components: vec![component],
        line: None,
    };

    let provider = MermaidProvider;
    let result = provider.generate(&system, Some("c4")).unwrap();
    assert!(result.contains("Boundary(Api, \"Api\")"));
    assert!(result.contains("Component(Server, \"Server\", \"Rust\")"));
}

#[test]
fn generate_c4_external_boundary() {
    let boundary = Arc::new(Boundary {
        name: "PublicApi".to_string(),
        exposure: Some("external".to_string()),
        specification_path: None,
        specification_type: None,
        line: None,
    });
    let component = Arc::new(Component {
        name: "Gateway".to_string(),
        technology: None,
        provides: vec![Arc::clone(&boundary)],
        requires: vec![],
        line: None,
    });
    let system = System {
        name: "test".to_string(),
        boundaries: vec![boundary],
        components: vec![component],
        line: None,
    };

    let provider = MermaidProvider;
    let result = provider.generate(&system, Some("c4")).unwrap();
    assert!(result.contains("Boundary(PublicApi, \"PublicApi\")"));
    assert!(result.contains("Component_Ext(Gateway, \"Gateway\","));
}

#[test]
fn generate_c4_requires_relationships() {
    let boundary = Arc::new(Boundary {
        name: "Database".to_string(),
        exposure: Some("internal".to_string()),
        specification_path: None,
        specification_type: None,
        line: None,
    });
    let component = Arc::new(Component {
        name: "App".to_string(),
        technology: None,
        provides: vec![],
        requires: vec![Arc::clone(&boundary)],
        line: None,
    });
    let system = System {
        name: "test".to_string(),
        boundaries: vec![boundary],
        components: vec![component],
        line: None,
    };

    let provider = MermaidProvider;
    let result = provider.generate(&system, Some("c4")).unwrap();
    assert!(result.contains("Rel(App, Database, \"requires\")"));
}

#[test]
fn generate_class_diagram() {
    let boundary = Arc::new(Boundary {
        name: "Api".to_string(),
        exposure: Some("internal".to_string()),
        specification_path: None,
        specification_type: None,
        line: None,
    });
    let component = Arc::new(Component {
        name: "Server".to_string(),
        technology: Some("Rust".to_string()),
        provides: vec![Arc::clone(&boundary)],
        requires: vec![],
        line: None,
    });
    let system = System {
        name: "test".to_string(),
        boundaries: vec![boundary],
        components: vec![component],
        line: None,
    };

    let provider = MermaidProvider;
    let result = provider.generate(&system, Some("class")).unwrap();
    assert!(result.contains("classDiagram"));
    assert!(result.contains("<<boundary>>"));
    assert!(result.contains("<<component>>"));
    assert!(result.contains("Server --|> Api"));
}

#[test]
fn generate_class_requires_dependency() {
    let boundary = Arc::new(Boundary {
        name: "Database".to_string(),
        exposure: Some("internal".to_string()),
        specification_path: None,
        specification_type: None,
        line: None,
    });
    let component = Arc::new(Component {
        name: "App".to_string(),
        technology: None,
        provides: vec![],
        requires: vec![Arc::clone(&boundary)],
        line: None,
    });
    let system = System {
        name: "test".to_string(),
        boundaries: vec![boundary],
        components: vec![component],
        line: None,
    };

    let provider = MermaidProvider;
    let result = provider.generate(&system, Some("class")).unwrap();
    assert!(result.contains("App ..> Database"));
}

#[test]
fn lib_generate_unknown_sub_type_returns_error() {
    let system = System {
        name: "test".to_string(),
        boundaries: vec![],
        components: vec![],
        line: None,
    };
    let provider = MermaidProvider;
    let result = provider.generate(&system, Some("sequence"));
    assert!(result.is_err());
    assert!(result.unwrap_err().message.contains("Unknown mermaid diagram sub-type"));
}
