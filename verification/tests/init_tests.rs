use std::cell::RefCell;
use std::rc::Rc;

use cabidl::filesystem::{Filesystem, FsError, FsErrorKind, InMemoryFilesystem};
use cabidl::init::{extract_yaml_field, template_entry, Init, InitImpl, TemplateEntry};
use cabidl::listing::{ordered_templates, template_table};

/// A filesystem that records what is created and written.
struct RecordingFs {
    log: Rc<RefCell<Vec<String>>>,
    fail_writes: bool,
    fail_dirs: bool,
}

impl Filesystem for RecordingFs {
    fn read_to_string(&self, path: &str) -> Result<String, FsError> {
        Err(FsError { kind: FsErrorKind::Other, message: format!("no file {}", path) })
    }
    fn resolve_path(&self, _base: &str, relative: &str) -> Result<String, FsError> {
        Ok(relative.to_string())
    }
    fn file_exists(&self, _path: &str) -> bool {
        false
    }
    fn canonicalize(&self, path: &str) -> Result<String, FsError> {
        Ok(path.to_string())
    }
    fn write_string(&mut self, path: &str, content: &str) -> Result<(), FsError> {
        self.log.borrow_mut().push(format!("write {} {}", path, content));
        if self.fail_writes {
            Err(FsError { kind: FsErrorKind::Other, message: "disk full".to_string() })
        } else {
            Ok(())
        }
    }
    fn create_dir_all(&mut self, path: &str) -> Result<(), FsError> {
        self.log.borrow_mut().push(format!("mkdir {}", path));
        if self.fail_dirs {
            Err(FsError { kind: FsErrorKind::Other, message: "read-only".to_string() })
        } else {
            Ok(())
        }
    }
}

fn entry(name: &str, language: &str, description: &str) -> TemplateEntry {
    TemplateEntry { name: name.to_string(), language: language.to_string(), description: description.to_string() }
}

fn archive(entries: &[(&str, Option<&str>)]) -> Vec<u8> {
    let raw: Vec<(&str, Option<&[u8]>)> = entries.iter().map(|(p, c)| (*p, c.map(|t| t.as_bytes()))).collect();
    archive_bytes(&raw)
}

fn archive_bytes(entries: &[(&str, Option<&[u8]>)]) -> Vec<u8> {
    let encoder = flate2::write::GzEncoder::new(Vec::new(), flate2::Compression::default());
    let mut builder = tar::Builder::new(encoder);
    for (path, content) in entries {
        let mut header = tar::Header::new_gnu();
        match content {
            Some(text) => {
                header.set_entry_type(tar::EntryType::Regular);
                header.set_size(text.len() as u64);
                header.set_mode(0o644);
                header.set_cksum();
                builder.append_data(&mut header, path, *text).unwrap();
            }
            None => {
                header.set_entry_type(tar::EntryType::Directory);
                header.set_size(0);
                header.set_mode(0o755);
                header.set_cksum();
                builder.append_data(&mut header, path, &[][..]).unwrap();
            }
        }
    }
    builder.into_inner().unwrap().finish().unwrap()
}

#[test]
fn yaml_field_values_are_trimmed_and_unquoted() {
    let content = "  name: \"simple-ls\"  \nlaguage: 'Rust'\ndescription:   A tiny ls  \nname: second\n";
    assert_eq!(extract_yaml_field(content, "name").as_deref(), Some("simple-ls"));
    assert_eq!(extract_yaml_field(content, "laguage").as_deref(), Some("Rust"));
    assert_eq!(extract_yaml_field(content, "description").as_deref(), Some("A tiny ls"));
    assert_eq!(extract_yaml_field(content, "language"), None);
    assert_eq!(extract_yaml_field("", "name"), None);
}

#[test]
fn template_entry_reads_a_descriptor() {
    let t = template_entry("name: simple-ls\nlaguage: Rust\ndescription: \"List files\"\n");
    assert_eq!(t.name, "simple-ls");
    assert_eq!(t.language, "Rust");
    assert_eq!(t.description, "List files");
    let u = template_entry("language: Go\nlaguage: Rust\n");
    assert_eq!(u.language, "Go");
    assert_eq!(u.name, "");
    assert_eq!(u.description, "");
}

#[test]
fn new_init_has_no_templates() {
    let mut init: Box<dyn Init> = Box::new(InitImpl::new(Box::new(InMemoryFilesystem::new())));
    assert!(init.list_templates().is_empty());
    let err = init.scaffold("nonexistent", "/test").unwrap_err();
    assert_eq!(err.message, "Unknown template: 'nonexistent'");
    assert_eq!(err.to_string(), "Unknown template: 'nonexistent'");
}

#[test]
fn scaffold_unknown_template_returns_error() {
    let mut init: Box<dyn Init> = Box::new(InitImpl::with_templates(
        Box::new(InMemoryFilesystem::new()),
        vec![entry("simple-ls", "Rust", "ls")],
        Vec::new(),
    ));
    let result = init.scaffold("nonexistent", "/test");
    assert!(result.is_err());
    assert!(result.unwrap_err().message.contains("Unknown template"));
}

#[test]
fn list_templates_returns_index() {
    let init = InitImpl::with_templates(InMemoryFilesystem::new(), vec![entry("simple-ls", "Rust", "ls")], Vec::new());
    let templates = init.list_templates();
    assert_eq!(templates.len(), 1);
    assert!(templates.iter().any(|t| t.name == "simple-ls"));
}

#[test]
fn scaffold_copies_template_files() {
    let bytes = archive(&[
        ("simple-ls/", None),
        ("simple-ls/template.yaml", Some("name: simple-ls\n")),
        ("simple-ls/cabidl/", None),
        ("simple-ls/cabidl/boundaries/fs.rs", Some("pub trait Fs {}\n")),
        ("other/readme.md", Some("not copied")),
    ]);
    let log = Rc::new(RefCell::new(Vec::new()));
    let fs = RecordingFs { log: Rc::clone(&log), fail_writes: false, fail_dirs: false };
    let mut init = InitImpl::with_templates(fs, vec![entry("simple-ls", "Rust", "ls"), entry("other", "Go", "")], bytes);
    init.scaffold("simple-ls", "/test/project").unwrap();
    let log = log.borrow();
    assert_eq!(
        *log,
        vec![
            "mkdir /test/project/cabidl".to_string(),
            "mkdir /test/project/cabidl/boundaries".to_string(),
            "write /test/project/cabidl/boundaries/fs.rs pub trait Fs {}\n".to_string(),
        ]
    );
}

#[test]
fn scaffold_reports_a_failed_write() {
    let bytes = archive(&[("t/a.txt", Some("A"))]);
    let log = Rc::new(RefCell::new(Vec::new()));
    let fs = RecordingFs { log: Rc::clone(&log), fail_writes: true, fail_dirs: false };
    let mut init = InitImpl::with_templates(fs, vec![entry("t", "", "")], bytes);
    let err = init.scaffold("t", "/out").unwrap_err();
    assert_eq!(err.message, "Failed to write '/out/a.txt': disk full");
    assert_eq!(*log.borrow(), vec!["mkdir /out".to_string(), "write /out/a.txt A".to_string()]);
}

#[test]
fn scaffold_reports_a_broken_archive() {
    let mut init = InitImpl::with_templates(InMemoryFilesystem::new(), vec![entry("t", "", "")], vec![1, 2, 3, 4]);
    let err = init.scaffold("t", "/out").unwrap_err();
    assert!(err.message.starts_with("Failed to read archive entry: "), "{}", err.message);
}

#[test]
fn templates_are_listed_by_language_then_name() {
    let ts = vec![
        entry("zeta", "Rust", "z"),
        entry("alpha", "Rust", "a"),
        entry("go-one", "Go", "g"),
        entry("alpha", "Rust", "second alpha"),
    ];
    let ordered = ordered_templates(&ts);
    let names: Vec<(&str, &str)> = ordered.iter().map(|t| (t.language.as_str(), t.description.as_str())).collect();
    assert_eq!(names, vec![("Go", "g"), ("Rust", "a"), ("Rust", "second alpha"), ("Rust", "z")]);
    let table = template_table(&ts);
    assert_eq!(table.len(), 5);
    assert_eq!(table[0], format!("{:<12} {:<20} {}", "Language", "Name", "Description"));
    assert_eq!(table[1], "Go           go-one               g");
    assert_eq!(table[4], format!("{:<12} {:<20} {}", "Rust", "zeta", "z"));
    let long = template_table(&vec![entry("a-very-long-template-name", "Assembly-language", "d")]);
    assert_eq!(long[1], "Assembly-language a-very-long-template-name d");
}

#[test]
fn scaffold_reports_a_failed_directory() {
    let bytes = archive(&[("t/d/", None), ("t/d/a.txt", Some("A"))]);
    let log = Rc::new(RefCell::new(Vec::new()));
    let fs = RecordingFs { log: Rc::clone(&log), fail_writes: false, fail_dirs: true };
    let mut init = InitImpl::with_templates(fs, vec![entry("t", "", "")], bytes);
    let err = init.scaffold("t", "/out").unwrap_err();
    assert_eq!(err.message, "Failed to create dir '/out/d': read-only");
    assert_eq!(*log.borrow(), vec!["mkdir /out/d".to_string()]);
}

#[test]
fn scaffold_reports_an_unreadable_file() {
    let bytes = archive_bytes(&[("t/bad.bin", Some(&[0xff, 0xfe, 0x00][..]))]);
    let log = Rc::new(RefCell::new(Vec::new()));
    let fs = RecordingFs { log: Rc::clone(&log), fail_writes: false, fail_dirs: false };
    let mut init = InitImpl::with_templates(fs, vec![entry("t", "", "")], bytes);
    let err = init.scaffold("t", "/out").unwrap_err();
    assert!(err.message.starts_with("Failed to read 't/bad.bin': "), "{}", err.message);
    assert_eq!(*log.borrow(), vec!["mkdir /out".to_string()]);
}

#[test]
fn scaffold_skips_other_templates_and_unreadable_files_there() {
    let bytes = archive_bytes(&[("u/bad.bin", Some(&[0xff][..])), ("t/ok.txt", Some(b"fine"))]);
    let log = Rc::new(RefCell::new(Vec::new()));
    let fs = RecordingFs { log: Rc::clone(&log), fail_writes: false, fail_dirs: false };
    let mut init = InitImpl::with_templates(fs, vec![entry("t", "", ""), entry("u", "", "")], bytes);
    init.scaffold("t", "/out").unwrap();
    assert_eq!(*log.borrow(), vec!["mkdir /out".to_string(), "write /out/ok.txt fine".to_string()]);
}

#[test]
fn scaffold_of_an_unknown_template_changes_nothing() {
    let bytes = archive(&[("t/a.txt", Some("A"))]);
    let log = Rc::new(RefCell::new(Vec::new()));
    let fs = RecordingFs { log: Rc::clone(&log), fail_writes: false, fail_dirs: false };
    let mut init = InitImpl::with_templates(fs, vec![entry("t", "", "")], bytes);
    let err = init.scaffold("nonexistent", "/out").unwrap_err();
    assert_eq!(err.message, "Unknown template: 'nonexistent'");
    assert!(log.borrow().is_empty());
}
