use cabidl::document::{parse, parse_content, resolve, validate};
use cabidl::filesystem::InMemoryFilesystem;

const DOC: &str = "\
```yaml
kind: system
name: shop
```

```yaml
kind: boundary
name: Api
exposure: external
specification:
  path: ./api.yaml
  typeDescription: OpenAPI
```

```yaml
kind: boundary
name: Api
```

```yaml
kind: component
name: Server
technology: Rust
boundaries:
  provides: [Api]
  requires: [Db, Cache]
```
";

#[test]
fn document_keeps_blocks_as_written() {
    let doc = parse_content(DOC, "shop.md").unwrap();
    assert_eq!(doc.system.name, "shop");
    assert_eq!(doc.system.line, Some(1));
    assert_eq!(doc.boundaries.len(), 2);
    assert_eq!(doc.boundaries[0].name, "Api");
    assert_eq!(doc.boundaries[0].exposure.as_deref(), Some("external"));
    assert_eq!(doc.boundaries[0].specification_path.as_deref(), Some("./api.yaml"));
    assert_eq!(doc.boundaries[0].specification_type.as_deref(), Some("OpenAPI"));
    assert_eq!(doc.boundaries[0].line, Some(6));
    assert_eq!(doc.boundaries[1].line, Some(15));
    assert_eq!(doc.components.len(), 1);
    let c = &doc.components[0];
    assert_eq!(c.name, "Server");
    assert_eq!(c.technology.as_deref(), Some("Rust"));
    assert_eq!(c.provides, vec!["Api".to_string()]);
    assert_eq!(c.requires, vec!["Db".to_string(), "Cache".to_string()]);
    assert_eq!(c.line, Some(20));
}

#[test]
fn document_validation_reports_undefined_references() {
    let doc = parse_content(DOC, "shop.md").unwrap();
    let errors = validate(&doc, "shop.md");
    assert_eq!(errors.len(), 2);
    assert_eq!(errors[0].message, "Component 'Server' requires undefined boundary 'Db'");
    assert_eq!(errors[1].message, "Component 'Server' requires undefined boundary 'Cache'");
    assert_eq!(errors[0].line, Some(20));
    assert_eq!(errors[1].file, "shop.md");
}

#[test]
fn document_validation_reports_exposure_first() {
    let content = "```yaml\nkind: system\nname: s\n```\n```yaml\nkind: boundary\nname: B\nexposure: public\n```\n```yaml\nkind: component\nname: C\nboundaries:\n  provides: [Nope]\n```\n";
    let doc = parse_content(content, "d.md").unwrap();
    let errors = validate(&doc, "d.md");
    assert_eq!(errors.len(), 2);
    assert_eq!(
        errors[0].message,
        "Invalid exposure value 'public' in boundary 'B' (must be 'external' or 'internal')"
    );
    assert_eq!(errors[1].message, "Component 'C' provides undefined boundary 'Nope'");
    assert_eq!(errors[1].line, Some(10));
}

#[test]
fn clean_document_has_no_errors() {
    let content = "```yaml\nkind: system\nname: s\n```\n```yaml\nkind: boundary\nname: B\nexposure: internal\n```\n```yaml\nkind: component\nname: C\nboundaries:\n  provides: [B]\n  requires: [B]\n```\n";
    let doc = parse_content(content, "d.md").unwrap();
    assert!(validate(&doc, "d.md").is_empty());
}

#[test]
fn document_block_errors() {
    let errors = parse_content("```yaml\nkind: system\n```\n", "d.md").unwrap_err();
    assert_eq!(errors.len(), 1);
    assert!(errors[0].message.starts_with("Invalid system block: "));
    let errors = parse_content("", "d.md").unwrap_err();
    assert_eq!(errors[0].message, "No system block found in document (exactly one required)");
}

#[test]
fn document_parses_through_includes() {
    let mut fs = InMemoryFilesystem::new();
    fs.add_file("/p/main.md", "```yaml\nkind: system\nname: s\n```\n<!-- @include ./more.md -->");
    fs.add_file("/p/more.md", "```yaml\nkind: boundary\nname: B\n```");
    let doc = parse(&fs, "/p/main.md").unwrap();
    assert_eq!(doc.boundaries.len(), 1);
    assert_eq!(doc.boundaries[0].line, Some(5));
    assert_eq!(resolve(&fs, "/p/main.md").unwrap(), "```yaml\nkind: system\nname: s\n```\n```yaml\nkind: boundary\nname: B\n```");
}
