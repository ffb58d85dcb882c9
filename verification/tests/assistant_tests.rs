use std::cell::RefCell;
use std::rc::Rc;

use cabidl::assistant::{AiProvider, AssistantProfile, AssistantProvider};
use cabidl::filesystem::{Filesystem, FsError, FsErrorKind, InMemoryFilesystem};

/// A filesystem that records what is created and written, and can be told
/// to fail either.
struct RecordingFs {
    log: Rc<RefCell<Vec<String>>>,
    fail_dirs: bool,
    fail_writes: bool,
}

impl RecordingFs {
    fn new(fail_dirs: bool, fail_writes: bool) -> Self {
        RecordingFs { log: Rc::new(RefCell::new(Vec::new())), fail_dirs, fail_writes }
    }
}

impl Filesystem for RecordingFs {
    fn read_to_string(&self, path: &str) -> Result<String, FsError> {
        Err(FsError { kind: FsErrorKind::Other, message: format!("no file {}", path) })
    }
    fn resolve_path(&self, _base: &str, relative: &str) -> Result<String, FsError> {
        Ok(relative.to_string())
    }
    fn file_exists(&self, _path: &str) -> bool {
        false
    }
    fn canonicalize(&self, path: &str) -> Result<String, FsError> {
        Ok(path.to_string())
    }
    fn write_string(&mut self, path: &str, content: &str) -> Result<(), FsError> {
        self.log.borrow_mut().push(format!("write {} {}", path, content));
        if self.fail_writes {
            Err(FsError { kind: FsErrorKind::Other, message: "disk full".to_string() })
        } else {
            Ok(())
        }
    }
    fn create_dir_all(&mut self, path: &str) -> Result<(), FsError> {
        self.log.borrow_mut().push(format!("mkdir {}", path));
        if self.fail_dirs {
            Err(FsError { kind: FsErrorKind::Other, message: "read-only".to_string() })
        } else {
            Ok(())
        }
    }
}

#[test]
fn profile_follows_the_provider_name() {
    let p = AssistantProfile::for_name("acme-code");
    assert_eq!(p.name, "acme-code");
    assert_eq!(p.config_dir, ".acme");
    assert_eq!(p.instructions_file, "ACME.md");
    let q = AssistantProfile::for_name("tool");
    assert_eq!(q.config_dir, ".tool");
    assert_eq!(q.instructions_file, "TOOL.md");
}

#[test]
fn provider_name_is_the_profile_name() {
    let provider = AssistantProvider::new(InMemoryFilesystem::new(), AssistantProfile::for_name("acme-code"));
    assert_eq!(provider.provider_name(), "acme-code");
}

#[test]
fn install_skill_writes_to_target_dir() {
    let mut provider = AssistantProvider::new(RecordingFs::new(false, false), AssistantProfile::for_name("acme-code"));
    assert!(provider.install_skill(Some("/test/skills"), "# Test Skill\n").is_ok());
    let mut boxed: Box<dyn AiProvider> = Box::new(AssistantProvider::new(
        Box::new(InMemoryFilesystem::new()),
        AssistantProfile::for_name("acme-code"),
    ));
    assert!(boxed.install_skill(Some("/test/skills"), "# Test Skill\n").is_ok());
}

#[test]
fn install_skill_reports_directory_failure() {
    let mut provider = AssistantProvider::new(RecordingFs::new(true, false), AssistantProfile::for_name("acme-code"));
    let err = provider.install_skill(Some("/t"), "x").unwrap_err();
    assert_eq!(err.message, "Failed to create directory '/t/cabidl': read-only");
}

#[test]
fn install_skill_reports_write_failure() {
    let mut provider = AssistantProvider::new(RecordingFs::new(false, true), AssistantProfile::for_name("acme-code"));
    let err = provider.install_skill(Some("/t"), "x").unwrap_err();
    assert_eq!(err.to_string(), "Failed to write skill file '/t/cabidl/SKILL.md': disk full");
}

#[test]
fn install_skill_default_location_is_under_home() {
    let mut provider = AssistantProvider::with_home(
        RecordingFs::new(true, false),
        AssistantProfile::for_name("acme-code"),
        Some("/home/u".to_string()),
    );
    let err = provider.install_skill(None, "x").unwrap_err();
    assert_eq!(err.message, "Failed to create directory '/home/u/.acme/skills/cabidl': read-only");
}

#[test]
fn install_skill_without_home_or_target_is_refused() {
    let mut provider = AssistantProvider::new(InMemoryFilesystem::new(), AssistantProfile::for_name("acme-code"));
    let err = provider.install_skill(None, "# Test Skill\n").unwrap_err();
    assert_eq!(err.message, "Could not determine home directory");
}

#[test]
fn init_project_writes_the_instructions_file() {
    let mut provider = AssistantProvider::new(InMemoryFilesystem::new(), AssistantProfile::for_name("acme-code"));
    assert!(provider.init_project("/test/project").is_ok());
    let mut failing = AssistantProvider::new(RecordingFs::new(false, true), AssistantProfile::for_name("acme-code"));
    let err = failing.init_project("/test/project").unwrap_err();
    assert_eq!(err.message, "Failed to write '/test/project/ACME.md': disk full");
}

#[test]
fn install_skill_uses_default_when_no_target_dir() {
    let fs = InMemoryFilesystem::new();
    // The home directory is handed to the provider rather than read from
    // the environment.
    let mut provider: Box<dyn AiProvider> = Box::new(AssistantProvider::with_home(
        Box::new(fs),
        AssistantProfile::for_name("acme-code"),
        Some("/home/tester".to_string()),
    ));
    let result = provider.install_skill(None, "# Test Skill\n");
    assert!(result.is_ok());
}

#[test]
fn install_skill_creates_the_directory_then_writes_the_file() {
    let fs = RecordingFs::new(false, false);
    let log = Rc::clone(&fs.log);
    let mut provider = AssistantProvider::new(fs, AssistantProfile::for_name("acme-code"));
    provider.install_skill(Some("/test/skills"), "# Test Skill\n").unwrap();
    assert_eq!(
        *log.borrow(),
        vec!["mkdir /test/skills/cabidl".to_string(), "write /test/skills/cabidl/SKILL.md # Test Skill\n".to_string()]
    );
}

#[test]
fn install_skill_stops_after_a_failed_directory() {
    let fs = RecordingFs::new(true, false);
    let log = Rc::clone(&fs.log);
    let mut provider = AssistantProvider::new(fs, AssistantProfile::for_name("acme-code"));
    assert!(provider.install_skill(Some("/t"), "x").is_err());
    assert_eq!(*log.borrow(), vec!["mkdir /t/cabidl".to_string()]);
}

#[test]
fn init_project_makes_exactly_one_write() {
    let fs = RecordingFs::new(false, false);
    let log = Rc::clone(&fs.log);
    let mut provider = AssistantProvider::new(fs, AssistantProfile::for_name("acme-code"));
    provider.init_project("/test/project").unwrap();
    let log = log.borrow();
    assert_eq!(log.len(), 1);
    assert!(log[0].starts_with("write /test/project/ACME.md "));
    assert!(log[0].contains("cabidl/cabidl.md"));
    assert!(log[0].contains("/cabidl skill"));
}
