use std::sync::Arc;

use cabidl::diagram_provider::{sanitize_id, DiagramProvider};
use cabidl::filesystem::{Filesystem, InMemoryFilesystem};
use cabidl::graphviz::GraphvizProvider;
use cabidl::markdown::extract_yaml_blocks;
use cabidl::mermaid::MermaidProvider;
use cabidl::model::{Boundary, Component, System, ValidationError};
use cabidl::parser::{parse_content, validate};
use cabidl::parser_impl::{CabidlParser, CabidlParserImpl};
use cabidl::path::{join_path, normalize_path};
use cabidl::resolver::resolve;

fn boundary(name: &str, exposure: Option<&str>) -> Arc<Boundary> {
    Arc::new(Boundary {
        name: name.to_string(),
        exposure: exposure.map(|e| e.to_string()),
        specification_path: None,
        specification_type: None,
        line: None,
    })
}

fn server_system() -> System {
    let api = boundary("Api", Some("internal"));
    let server = Arc::new(Component {
        name: "Server".to_string(),
        technology: Some("Rust".to_string()),
        provides: vec![Arc::clone(&api)],
        requires: vec![],
        line: None,
    });
    System { name: "s".to_string(), boundaries: vec![api], components: vec![server], line: None }
}

// ---------------------------------------------------------------------------
// Text, paths, identifiers
// ---------------------------------------------------------------------------

#[test]
fn sanitize_replaces_non_alphanumerics() {
    assert_eq!(sanitize_id("my-api v2"), "my_api_v2");
    assert_eq!(sanitize_id("café"), "café");
    assert_eq!(sanitize_id(""), "");
    assert_eq!(sanitize_id("a.b/c"), "a_b_c");
}

#[test]
fn join_path_follows_path_join() {
    assert_eq!(join_path("/test/skills", "cabidl"), "/test/skills/cabidl");
    assert_eq!(join_path("/test/skills/", "cabidl"), "/test/skills/cabidl");
    assert_eq!(join_path("", "cabidl"), "cabidl");
    assert_eq!(join_path("/a", "/b"), "/b");
}

#[test]
fn normalize_path_resolves_dots() {
    assert_eq!(normalize_path("/project/./docs/../main.md"), "/project/main.md");
    assert_eq!(normalize_path("a/b/../../c"), "c");
    assert_eq!(normalize_path("/"), "/");
    assert_eq!(normalize_path("/../a.md"), "/a.md");
}

// ---------------------------------------------------------------------------
// The in-memory filesystem
// ---------------------------------------------------------------------------

#[test]
fn in_memory_reads_back_what_was_added() {
    let mut fs = InMemoryFilesystem::new();
    fs.add_file("/p/a.md", "first");
    fs.add_file("/p/b.md", "other");
    fs.add_file("/p/./a.md", "second");
    assert_eq!(fs.read_to_string("/p/a.md").unwrap(), "second");
    assert_eq!(fs.read_to_string("/p/b.md").unwrap(), "other");
    assert!(fs.file_exists("/p/a.md"));
    assert!(!fs.file_exists("/p/c.md"));
    assert_eq!(fs.read_to_string("/p/c.md").unwrap_err().message, "File not found: /p/c.md");
}

#[test]
fn in_memory_resolves_against_the_including_file() {
    let mut fs = InMemoryFilesystem::new();
    fs.add_file("/project/main.md", "x");
    assert_eq!(fs.resolve_path("/project/main.md", "./part.md").unwrap(), "/project/part.md");
    assert_eq!(fs.resolve_path("/project", "../other.md").unwrap(), "/other.md");
    assert_eq!(fs.canonicalize("/a/./b/../c").unwrap(), "/a/c");
    assert_eq!(fs.canonicalize("/../a.md").unwrap(), "/a.md");
    assert!(fs.write_string("/x", "y").is_ok());
    assert!(fs.create_dir_all("/x/y").is_ok());
}

// ---------------------------------------------------------------------------
// Markdown and includes
// ---------------------------------------------------------------------------

#[test]
fn yaml_blocks_report_their_opening_line() {
    let content = "# T\n\n```yaml\nkind: system\nname: t\n```\n\n```rust\n```yaml\n\n  ```yaml   \na: 1\n```\n```yaml\nunclosed: true\n";
    let blocks = extract_yaml_blocks(content);
    assert_eq!(blocks.len(), 2);
    assert_eq!(blocks[0], ("kind: system\nname: t".to_string(), 3));
    assert_eq!(blocks[1], ("a: 1".to_string(), 11));
    let lines: Vec<&str> = content.lines().collect();
    for (_, line) in &blocks {
        assert!(lines[line - 1].trim().starts_with("```yaml"));
    }
}

#[test]
fn plain_text_resolves_to_its_lines() {
    let mut fs = InMemoryFilesystem::new();
    fs.add_file("/d/main.md", "a\r\nb\n\nc\n");
    assert_eq!(resolve(&fs, "/d/main.md").unwrap(), "a\nb\n\nc");
}

#[test]
fn resolve_reports_a_missing_document() {
    let fs = InMemoryFilesystem::new();
    let errors = resolve(&fs, "/d/none.md").unwrap_err();
    assert_eq!(errors.len(), 1);
    assert_eq!(errors[0].message, "Failed to read file '/d/none.md': File not found: /d/none.md");
    assert_eq!(errors[0].file, "/d/none.md");
    assert_eq!(errors[0].line, None);
}

#[test]
fn include_directive_needs_white_space_after_the_keyword() {
    let mut fs = InMemoryFilesystem::new();
    fs.add_file("/d/main.md", "<!--@include./x.md-->\n<!--   @include   ./part.md   -->");
    fs.add_file("/d/part.md", "PART");
    assert_eq!(resolve(&fs, "/d/main.md").unwrap(), "<!--@include./x.md-->\nPART");
}

// ---------------------------------------------------------------------------
// Parsing and checking
// ---------------------------------------------------------------------------

#[test]
fn parsed_components_share_the_system_boundaries() {
    let content = "```yaml\nkind: system\nname: t\n```\n```yaml\nkind: boundary\nname: Api\n```\n```yaml\nkind: component\nname: S\nboundaries:\n  provides: [Api]\n  requires: [Api]\n```\n";
    let system = parse_content(content, "t.md").unwrap();
    assert_eq!(system.line, Some(1));
    assert_eq!(system.boundaries[0].line, Some(5));
    assert_eq!(system.components[0].line, Some(9));
    assert!(Arc::ptr_eq(&system.components[0].provides[0], &system.boundaries[0]));
    assert!(Arc::ptr_eq(&system.components[0].requires[0], &system.boundaries[0]));
    assert!(validate(&system, "t.md").is_empty());
}

#[test]
fn parse_error_messages_are_exact() {
    let errors = parse_content("```yaml\nkind: component\nname: C\nboundaries:\n  requires: [Db]\n```\n", "f.md").unwrap_err();
    assert_eq!(errors.len(), 2);
    assert_eq!(errors[0].message, "No system block found in document (exactly one required)");
    assert_eq!(errors[0].line, None);
    assert_eq!(errors[1].message, "Component 'C' requires undefined boundary 'Db'");
    assert_eq!(errors[1].line, Some(1));
    assert_eq!(errors[1].to_string(), "f.md:1: Component 'C' requires undefined boundary 'Db'");
    assert_eq!(errors[0].to_string(), "f.md: No system block found in document (exactly one required)");
}

#[test]
fn block_kind_errors_are_exact() {
    let errors = parse_content("```yaml\nname: x\n```\n```yaml\nkind: widget\n```\n", "f.md").unwrap_err();
    assert_eq!(errors.len(), 2);
    assert_eq!(errors[0].message, "YAML block missing required 'kind' field");
    assert_eq!(errors[1].message, "Unknown block kind: 'widget'");
    assert_eq!(errors[1].line, Some(4));
}

#[test]
fn validation_reports_exposure_then_duplicates() {
    let content = "```yaml\nkind: system\nname: t\n```\n```yaml\nkind: boundary\nname: B\nexposure: open\n```\n```yaml\nkind: component\nname: C\n```\n```yaml\nkind: component\nname: C\n```\n";
    let system = parse_content(content, "t.md").unwrap();
    let errors = validate(&system, "t.md");
    assert_eq!(errors.len(), 2);
    assert_eq!(
        errors[0].message,
        "Invalid exposure value 'open' in boundary 'B' (must be 'external' or 'internal')"
    );
    assert_eq!(errors[0].line, Some(5));
    assert_eq!(errors[1].message, "Duplicate component name 'C'");
    assert_eq!(errors[1].line, Some(14));
}

#[test]
fn error_display_formats() {
    let e = ValidationError { message: "m".to_string(), file: "f".to_string(), line: Some(0) };
    assert_eq!(e.to_string(), "f:0: m");
    let e = ValidationError { message: "".to_string(), file: "".to_string(), line: Some(1234567) };
    assert_eq!(e.to_string(), ":1234567: ");
}

// ---------------------------------------------------------------------------
// Diagrams
// ---------------------------------------------------------------------------

#[test]
fn graphviz_dark_is_default_with_content() {
    let system = server_system();
    let p = GraphvizProvider;
    assert_eq!(p.generate(&system, None).unwrap(), p.generate(&system, Some("dark")).unwrap());
    assert_ne!(p.generate(&system, None).unwrap(), p.generate(&system, Some("light")).unwrap());
}

#[test]
fn graphviz_document_is_exact() {
    let out = GraphvizProvider.generate(&server_system(), Some("light")).unwrap();
    let expected = "digraph \"s\" {\n    bgcolor=\"#ffffff\"\n    fontcolor=\"#1e1e2e\"\n    fontname=\"Helvetica\"\n    label=\"s\"\n    labelloc=t\n    fontsize=20\n    compound=true\n    ranksep=1.2\n    nodesep=0.8\n    pad=0.5\n\n    node [fontname=\"Helvetica\" fontsize=12 fontcolor=\"#1e1e2e\"]\n    edge [fontname=\"Helvetica\" fontsize=10 fontcolor=\"#6c6f85\"]\n\n    subgraph cluster_Api {\n        label=\"Api\"\n        style=\"rounded\"\n        color=\"#9ca0b0\"\n        fontcolor=\"#6c6f85\"\n        fontname=\"Helvetica\"\n        fontsize=14\n        margin=16\n\n        \"_anchor:Api\" [shape=point style=invis width=0 height=0]\n        \"component:Server\" [shape=box style=\"filled,rounded\" fillcolor=\"#e6e9ef\" fontcolor=\"#1e1e2e\" color=\"#9ca0b0\" label=\"Server\\n[Rust]\"]\n    }\n\n}\n";
    assert_eq!(out, expected);
}

#[test]
fn graphviz_unreferenced_boundary_has_no_cluster() {
    let system = System {
        name: "s".to_string(),
        boundaries: vec![boundary("Lonely", None)],
        components: vec![],
        line: None,
    };
    let out = GraphvizProvider.generate(&system, None).unwrap();
    assert!(!out.contains("cluster_Lonely"));
    assert!(out.ends_with("\n\n}\n"));
}

#[test]
fn mermaid_documents_are_exact() {
    let system = server_system();
    let c4 = MermaidProvider.generate(&system, None).unwrap();
    assert_eq!(
        c4,
        "C4Context\n    title s\n\n    Boundary(Api, \"Api\") {\n        Component(Server, \"Server\", \"Rust\")\n    }\n\n"
    );
    let class = MermaidProvider.generate(&system, Some("class")).unwrap();
    assert_eq!(
        class,
        "classDiagram\n    class Api {\n        <<boundary>>\n    }\n    class Server {\n        <<component>>\n        Rust\n    }\n    Server --|> Api\n"
    );
    let err = MermaidProvider.generate(&system, Some("flow")).unwrap_err();
    assert_eq!(err.to_string(), "Unknown mermaid diagram sub-type: 'flow'. Valid values: c4, class");
}

#[test]
fn mermaid_identifiers_are_sanitized() {
    let db = boundary("user-db", Some("external"));
    let app = Arc::new(Component {
        name: "web app".to_string(),
        technology: None,
        provides: vec![],
        requires: vec![Arc::clone(&db)],
        line: None,
    });
    let system = System { name: "s".to_string(), boundaries: vec![db], components: vec![app], line: None };
    let c4 = MermaidProvider.generate(&system, Some("c4")).unwrap();
    assert!(c4.contains("    Boundary(user_db, \"user-db\") {\n    }\n"));
    assert!(c4.contains("    Component(web_app, \"web app\", \"\")\n"));
    assert!(c4.ends_with("    Rel(web_app, user_db, \"requires\")\n"));
}

#[test]
fn boundary_node_diagram_is_exact() {
    let out = cabidl::graphviz_nodes::GraphvizProvider.generate(&server_system()).unwrap();
    let expected = "digraph \"s\" {\n    bgcolor=\"#1e1e2e\"\n    fontcolor=\"#cdd6f4\"\n    fontname=\"Helvetica\"\n    label=\"s\"\n    labelloc=t\n    fontsize=20\n\n    node [fontname=\"Helvetica\" fontsize=12 fontcolor=\"#cdd6f4\"]\n    edge [fontname=\"Helvetica\" fontsize=10 fontcolor=\"#a6adc8\"]\n\n    \"boundary:Api\" [shape=ellipse style=filled fillcolor=\"#1e1e2e\" fontcolor=\"#a6adc8\" color=\"#585b70\" label=\"Api\"]\n\n    \"component:Server\" [shape=box style=\"filled,rounded\" fillcolor=\"#313244\" fontcolor=\"#cdd6f4\" color=\"#585b70\" label=\"Server\\n[Rust]\"]\n    \"component:Server\" -> \"boundary:Api\" [color=\"#a6e3a1\" label=\"provides\"]\n}\n";
    assert_eq!(out, expected);
}

/// A filesystem whose every operation fails.
struct BrokenFs;

impl Filesystem for BrokenFs {
    fn read_to_string(&self, _path: &str) -> Result<String, cabidl::filesystem::FsError> {
        Err(cabidl::filesystem::FsError { kind: cabidl::filesystem::FsErrorKind::Other, message: "unreadable".to_string() })
    }
    fn resolve_path(&self, _base: &str, _relative: &str) -> Result<String, cabidl::filesystem::FsError> {
        Err(cabidl::filesystem::FsError { kind: cabidl::filesystem::FsErrorKind::Other, message: "unresolvable".to_string() })
    }
    fn file_exists(&self, _path: &str) -> bool {
        false
    }
    fn canonicalize(&self, _path: &str) -> Result<String, cabidl::filesystem::FsError> {
        Err(cabidl::filesystem::FsError { kind: cabidl::filesystem::FsErrorKind::Other, message: "nope".to_string() })
    }
    fn write_string(&mut self, _path: &str, _content: &str) -> Result<(), cabidl::filesystem::FsError> {
        Err(cabidl::filesystem::FsError { kind: cabidl::filesystem::FsErrorKind::Other, message: "unwritable".to_string() })
    }
    fn create_dir_all(&mut self, _path: &str) -> Result<(), cabidl::filesystem::FsError> {
        Err(cabidl::filesystem::FsError { kind: cabidl::filesystem::FsErrorKind::Other, message: "unwritable".to_string() })
    }
}

#[test]
fn resolve_reports_an_unresolvable_path() {
    let errors = resolve(&BrokenFs, "/x.md").unwrap_err();
    assert_eq!(errors.len(), 1);
    assert_eq!(errors[0].message, "Failed to resolve path '/x.md': nope");
}

#[test]
fn specification_paths_are_checked() {
    let mut fs = InMemoryFilesystem::new();
    fs.add_file("/p/main.md", "```yaml\nkind: system\nname: s\n```\n```yaml\nkind: boundary\nname: A\nspecification:\n  path: ./a.yaml\n```\n```yaml\nkind: boundary\nname: B\nspecification:\n  path: ./b.yaml\n```\n");
    fs.add_file("/p/a.yaml", "openapi: 3");
    let parser = CabidlParserImpl::new(fs);
    let system = parser.parse("/p/main.md").unwrap();
    let errors = parser.validate(&system, "/p/main.md");
    assert_eq!(errors.len(), 1);
    assert_eq!(errors[0].message, "Specification path './b.yaml' in boundary 'B' does not exist");
    assert_eq!(errors[0].line, Some(11));

    let broken = CabidlParserImpl::new(BrokenFs);
    let errors = broken.validate(&system, "/p/main.md");
    assert_eq!(errors.len(), 2);
    assert_eq!(
        errors[0].message,
        "Cannot resolve specification path './a.yaml' in boundary 'A': unresolvable"
    );
}

#[test]
fn in_memory_reports_a_missing_file_as_not_found() {
    let fs = InMemoryFilesystem::new();
    assert!(!fs.file_exists("/nowhere.md"));
    let err = fs.read_to_string("/nowhere.md").unwrap_err();
    assert_eq!(err.kind, cabidl::filesystem::FsErrorKind::NotFound);
    assert_eq!(err.message, "File not found: /nowhere.md");
}
