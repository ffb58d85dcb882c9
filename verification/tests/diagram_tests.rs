use std::sync::Arc;

use cabidl::diagram::{Diagram, DiagramImpl};
use cabidl::diagram_provider::DiagramProvider;
use cabidl::graphviz::GraphvizProvider;
use cabidl::mermaid::MermaidProvider;
use cabidl::model::{Boundary, Component, System};

fn test_system() -> System {
    let boundary = Arc::new(Boundary {
        name: "Api".to_string(),
        exposure: Some("external".to_string()),
        specification_path: None,
        specification_type: None,
        line: None,
    });
    let component = Arc::new(Component {
        name: "Server".to_string(),
        technology: Some("Rust".to_string()),
        provides: vec![Arc::clone(&boundary)],
        requires: vec![],
        line: None,
    });
    System {
        name: "test-system".to_string(),
        boundaries: vec![boundary],
        components: vec![component],
        line: None,
    }
}

#[test]
fn generate_with_known_type_returns_content() {
    let diagram = DiagramImpl::new(vec![Box::new(GraphvizProvider)]);
    let result = diagram.generate(&test_system(), "graphviz", None);
    assert!(result.is_ok());
    let content = result.unwrap();
    assert!(content.contains("digraph"));
}

#[test]
fn generate_with_unknown_type_returns_error() {
    let diagram = DiagramImpl::new(vec![Box::new(GraphvizProvider)]);
    let result = diagram.generate(&test_system(), "mermaid", None);
    assert!(result.is_err());

    let err = result.unwrap_err();
    assert!(err.message.contains("Unknown diagram type: 'mermaid'"));
}

#[test]
fn diagram_passes_sub_type_to_the_chosen_provider() {
    let diagram = DiagramImpl::new(vec![Box::new(GraphvizProvider), Box::new(MermaidProvider)]);
    let system = test_system();
    let via_diagram = diagram.generate(&system, "mermaid", Some("class")).unwrap();
    let direct = MermaidProvider.generate(&system, Some("class")).unwrap();
    assert_eq!(via_diagram, direct);
    let light = diagram.generate(&system, "graphviz", Some("light")).unwrap();
    assert!(light.contains("bgcolor=\"#ffffff\""));
    let err = diagram.generate(&system, "graphviz", Some("neon")).unwrap_err();
    assert_eq!(
        err.to_string(),
        "Unknown graphviz diagram sub-type: 'neon'. Valid values: dark, light"
    );
}

#[test]
fn unknown_diagram_type_message_is_exact() {
    let diagram = DiagramImpl::new(vec![]);
    let err = diagram.generate(&test_system(), "svg", None).unwrap_err();
    assert_eq!(err.message, "Unknown diagram type: 'svg'");
}

/// A filesystem that records what is written, and can be told to fail.
struct RecordingFs {
    log: std::rc::Rc<std::cell::RefCell<Vec<(String, String)>>>,
    fail: bool,
}

impl cabidl::filesystem::Filesystem for RecordingFs {
    fn read_to_string(&self, path: &str) -> Result<String, cabidl::filesystem::FsError> {
        Err(cabidl::filesystem::FsError { kind: cabidl::filesystem::FsErrorKind::Other, message: format!("no file {}", path) })
    }
    fn resolve_path(&self, _base: &str, relative: &str) -> Result<String, cabidl::filesystem::FsError> {
        Ok(relative.to_string())
    }
    fn file_exists(&self, _path: &str) -> bool {
        false
    }
    fn canonicalize(&self, path: &str) -> Result<String, cabidl::filesystem::FsError> {
        Ok(path.to_string())
    }
    fn write_string(&mut self, path: &str, content: &str) -> Result<(), cabidl::filesystem::FsError> {
        self.log.borrow_mut().push((path.to_string(), content.to_string()));
        if self.fail {
            Err(cabidl::filesystem::FsError { kind: cabidl::filesystem::FsErrorKind::Other, message: "denied".to_string() })
        } else {
            Ok(())
        }
    }
    fn create_dir_all(&mut self, _path: &str) -> Result<(), cabidl::filesystem::FsError> {
        Ok(())
    }
}

#[test]
fn diagram_is_written_to_the_output_file() {
    let log = std::rc::Rc::new(std::cell::RefCell::new(Vec::new()));
    let fs = RecordingFs { log: std::rc::Rc::clone(&log), fail: false };
    let mut diagram = cabidl::diagram_output::DiagramImpl::new(vec![Box::new(GraphvizProvider)], fs);
    let system = test_system();
    diagram.generate(&system, "graphviz", "/out/arch.dot").unwrap();
    let expected = GraphvizProvider.generate(&system, None).unwrap();
    assert_eq!(*log.borrow(), vec![("/out/arch.dot".to_string(), expected)]);
}

#[test]
fn diagram_output_errors_are_exact() {
    let log = std::rc::Rc::new(std::cell::RefCell::new(Vec::new()));
    let fs = RecordingFs { log: std::rc::Rc::clone(&log), fail: true };
    let mut diagram = cabidl::diagram_output::DiagramImpl::new(vec![Box::new(GraphvizProvider)], fs);
    let err = diagram.generate(&test_system(), "graphviz", "/out/arch.dot").unwrap_err();
    assert_eq!(err.message, "Failed to write output file '/out/arch.dot': denied");
    let err = diagram.generate(&test_system(), "mermaid", "/out/arch.mmd").unwrap_err();
    assert_eq!(err.message, "Unknown diagram type: 'mermaid'");
    assert_eq!(log.borrow().len(), 1);
}
