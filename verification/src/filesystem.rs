//! The Filesystem boundary: file reading and path resolution, behind a
//! trait so that parsing can run against an in-memory set of files.
use crate::path::{comp_eq, components, copy_comps, join_parts, normalize_comps, normalize_path, normalize_path_spec, normalized, parent_parts, parts, parts_view, render, render_comps, Comp, PathPart};
use crate::text::{chars_of, owned, push_str};
use vstd::prelude::*;

verus! {

/// The kind of a file operation's error: a missing file, or another.
#[derive(Debug, Clone, Copy, PartialEq, Eq)]
pub enum FsErrorKind {
    NotFound,
    Other,
}

/// An error of a file operation: its kind and its message.
#[derive(Debug)]
pub struct FsError {
    pub kind: FsErrorKind,
    pub message: String,
}

pub open spec fn fs_view(r: Result<String, FsError>) -> Result<Seq<char>, Seq<char>> {
    match r {
        Ok(s) => Ok(s@),
        Err(e) => Err(e.message@),
    }
}

pub open spec fn done_view(r: Result<(), FsError>) -> Result<(), Seq<char>> {
    match r {
        Ok(_) => Ok(()),
        Err(e) => Err(e.message@),
    }
}

/// A change asked of a filesystem, with what came back: a write of
/// `content` to `path`, or the creation of the directory `path` and its
/// parents.
pub enum FsEffect {
    Write { path: Seq<char>, content: Seq<char>, outcome: Result<(), Seq<char>> },
    CreateDir { path: Seq<char>, outcome: Result<(), Seq<char>> },
}

/// The changes recorded in `after` beyond `before`, when `after` begins
/// with `before`.
pub open spec fn effects_since(before: Seq<FsEffect>, after: Seq<FsEffect>) -> Option<Seq<FsEffect>> {
    if before.len() <= after.len() && after.take(before.len() as int) == before {
        Some(after.skip(before.len() as int))
    } else {
        None
    }
}

/// The outcome of the first recorded change, when it is the creation of
/// the directory `path`.
pub open spec fn head_create(log: Seq<FsEffect>, path: Seq<char>) -> Option<Result<(), Seq<char>>> {
    if log.len() == 0 {
        None
    } else {
        match log[0] {
            FsEffect::CreateDir { path: p, outcome } => if p == path {
                Some(outcome)
            } else {
                None
            },
            _ => None,
        }
    }
}

/// The outcome of the first recorded change, when it is the write of
/// `content` to `path`.
pub open spec fn head_write(log: Seq<FsEffect>, path: Seq<char>, content: Seq<char>) -> Option<Result<(), Seq<char>>> {
    if log.len() == 0 {
        None
    } else {
        match log[0] {
            FsEffect::Write { path: p, content: c, outcome } => if p == path && c == content {
                Some(outcome)
            } else {
                None
            },
            _ => None,
        }
    }
}

/// The outcome of the one recorded change, when it is the write of
/// `content` to `path` and nothing else was changed.
pub open spec fn single_write(log: Seq<FsEffect>, path: Seq<char>, content: Seq<char>) -> Option<Result<(), Seq<char>>> {
    if log.len() == 1 {
        head_write(log, path, content)
    } else {
        None
    }
}

/// Whether no change was recorded.
pub open spec fn no_effects(log: Seq<FsEffect>) -> bool {
    log.len() == 0
}

/// The Filesystem boundary trait.
///
/// Provides an abstraction over file I/O so that the parser can be tested
/// with in-memory file systems without touching the real filesystem.
///
/// Each query is described by a spec function of the filesystem value,
/// which the query's result equals: a filesystem is taken to answer the
/// same query the same way until it is changed through `&mut self`. The
/// changes asked of it are recorded, in order and with their outcomes, in
/// `effects`. An implementation that does not define one of these spec
/// functions leaves it an unknown function of the filesystem value and
/// the arguments.
pub trait Filesystem {
    /// What reading `path` gives: its text, or an error message.
    open spec fn read_result(&self, path: Seq<char>) -> Result<Seq<char>, Seq<char>> {
        arbitrary::<spec_fn(&Self, Seq<char>) -> Result<Seq<char>, Seq<char>>>()(self, path)
    }

    /// What resolving `relative` against the file or directory `base` gives.
    open spec fn resolve_result(&self, base: Seq<char>, relative: Seq<char>) -> Result<Seq<char>, Seq<char>> {
        arbitrary::<spec_fn(&Self, Seq<char>, Seq<char>) -> Result<Seq<char>, Seq<char>>>()(self, base, relative)
    }

    /// Whether a file exists at `path`.
    open spec fn exists_result(&self, path: Seq<char>) -> bool {
        arbitrary::<spec_fn(&Self, Seq<char>) -> bool>()(self, path)
    }

    /// The canonical form of `path`, or an error message.
    open spec fn canonical_result(&self, path: Seq<char>) -> Result<Seq<char>, Seq<char>> {
        arbitrary::<spec_fn(&Self, Seq<char>) -> Result<Seq<char>, Seq<char>>>()(self, path)
    }

    /// The writes and directory creations asked of this filesystem so
    /// far, in order, with their outcomes.
    open spec fn effects(&self) -> Seq<FsEffect> {
        arbitrary::<spec_fn(&Self) -> Seq<FsEffect>>()(self)
    }

    /// Read the entire contents of a file as a UTF-8 string.
    fn read_to_string(&self, path: &str) -> (r: Result<String, FsError>)
        ensures
            fs_view(r) == self.read_result(path@),
    ;

    /// Resolve a potentially relative path against a base file path.
    /// The base path is the file containing the `<!-- @include -->` directive.
    /// The method resolves the relative path against the base file's parent directory.
    fn resolve_path(&self, base: &str, relative: &str) -> (r: Result<String, FsError>)
        ensures
            fs_view(r) == self.resolve_result(base@, relative@),
    ;

    /// Check whether a file exists at the given path.
    fn file_exists(&self, path: &str) -> (r: bool)
        ensures
            r == self.exists_result(path@),
    ;

    /// Return the canonical, absolute form of a path.
    /// For real filesystems, this resolves symlinks and relative components.
    /// For in-memory filesystems, this normalizes the path without OS calls.
    fn canonicalize(&self, path: &str) -> (r: Result<String, FsError>)
        ensures
            fs_view(r) == self.canonical_result(path@),
    ;

    /// Write the given content to a file as UTF-8, creating or overwriting the file.
    fn write_string(&mut self, path: &str, content: &str) -> (r: Result<(), FsError>)
        ensures
            final(self).effects() == old(self).effects().push(
                FsEffect::Write { path: path@, content: content@, outcome: done_view(r) },
            ),
    ;

    /// Create a directory and all its parent directories.
    /// For real filesystems, delegates to `std::fs::create_dir_all`.
    /// For in-memory filesystems, this is a no-op (files are stored by path).
    fn create_dir_all(&mut self, path: &str) -> (r: Result<(), FsError>)
        ensures
            final(self).effects() == old(self).effects().push(
                FsEffect::CreateDir { path: path@, outcome: done_view(r) },
            ),
    ;
}

/// In-memory filesystem for testing. Maps paths to file contents; two
/// paths name the same file when their components are equal.
pub struct InMemoryFilesystem {
    files: Vec<(Vec<Comp>, String)>,
    log: Ghost<Seq<FsEffect>>,
}

/// The content stored under the first key, from `i` on, equal to `key`.
pub open spec fn lookup(files: Seq<(Seq<PathPart>, Seq<char>)>, key: Seq<PathPart>, i: int) -> Option<
    Seq<char>,
>
    decreases files.len() - i,
{
    if i < 0 || i >= files.len() {
        None
    } else if files[i].0 == key {
        Some(files[i].1)
    } else {
        lookup(files, key, i + 1)
    }
}

/// The position of the first key equal to `key`, from `i` on.
pub open spec fn key_position(files: Seq<(Seq<PathPart>, Seq<char>)>, key: Seq<PathPart>, i: int) -> int
    decreases files.len() - i,
{
    if i < 0 || i >= files.len() {
        -1
    } else if files[i].0 == key {
        i
    } else {
        key_position(files, key, i + 1)
    }
}

/// The files after storing `content` under `key`: the content of an equal
/// key is replaced, or a new entry is added at the end.
pub open spec fn store(files: Seq<(Seq<PathPart>, Seq<char>)>, key: Seq<PathPart>, content: Seq<char>) -> Seq<
    (Seq<PathPart>, Seq<char>),
> {
    let p = key_position(files, key, 0);
    if 0 <= p < files.len() {
        files.update(p, (files[p].0, content))
    } else {
        files.push((key, content))
    }
}

/// The directory against which a base path resolves: the parent of the
/// base when the base is a stored file (the root when it has none), else
/// the base itself.
pub open spec fn base_dir(files: Seq<(Seq<PathPart>, Seq<char>)>, base: Seq<char>) -> Seq<PathPart> {
    if lookup(files, parts(base), 0) is Some {
        match parent_parts(parts(base)) {
            Some(p) => p,
            None => seq![PathPart::Root],
        }
    } else {
        parts(base)
    }
}

impl InMemoryFilesystem {
    /// The stored files: path components and content.
    pub closed spec fn files(&self) -> Seq<(Seq<PathPart>, Seq<char>)> {
        self.files@.map_values(|e: (Vec<Comp>, String)| (parts_view(e.0@), e.1@))
    }

    /// The writes and directory creations asked of it so far.
    pub closed spec fn recorded(&self) -> Seq<FsEffect> {
        self.log@
    }

    pub fn new() -> (fs: Self)
        ensures
            fs.files() == Seq::<(Seq<PathPart>, Seq<char>)>::empty(),
            fs.recorded() == Seq::<FsEffect>::empty(),
    {
        let fs = InMemoryFilesystem { files: Vec::new(), log: Ghost(Seq::empty()) };
        assert(fs.files() =~= Seq::<(Seq<PathPart>, Seq<char>)>::empty());
        fs
    }

    fn position(&self, key: &Vec<Comp>) -> (r: Option<usize>)
        ensures
            match r {
                Some(i) => i < self.files@.len() && key_position(self.files(), parts_view(key@), 0) == i,
                None => key_position(self.files(), parts_view(key@), 0) == -1,
            },
    {
        let ghost fv = self.files();
        let mut i: usize = 0;
        while i < self.files.len()
            invariant
                i <= self.files@.len(),
                fv == self.files(),
                key_position(fv, parts_view(key@), i as int) == key_position(fv, parts_view(key@), 0),
            decreases self.files@.len() - i,
        {
            assert(fv[i as int] == (parts_view(self.files@[i as int].0@), self.files@[i as int].1@));
            if comps_eq(&self.files[i].0, key) {
                return Some(i);
            }
            i = i + 1;
        }
        None
    }

    /// Stores `content` as the file at `path`.
    pub fn add_file(&mut self, path: &str, content: &str)
        ensures
            final(self).files() == store(old(self).files(), parts(path@), content@),
            final(self).recorded() == old(self).recorded(),
    {
        let key = components(chars_of(path).as_slice());
        let ghost before = self.files();
        proof {
            lemma_position_lookup(before, parts_view(key@), 0);
        }
        match self.position(&key) {
            Some(i) => {
                let k = copy_comps(&self.files[i].0);
                self.files.set(i, (k, owned(content)));
                assert(self.files() =~= before.update(i as int, (before[i as int].0, content@)));
            },
            None => {
                self.files.push((key, owned(content)));
                assert(self.files() =~= before.push((parts(path@), content@)));
            },
        }
    }

    fn content_of(&self, key: &Vec<Comp>) -> (r: Option<String>)
        ensures
            match r {
                Some(s) => lookup(self.files(), parts_view(key@), 0) == Some(s@),
                None => lookup(self.files(), parts_view(key@), 0) is None,
            },
    {
        proof {
            lemma_position_lookup(self.files(), parts_view(key@), 0);
        }
        match self.position(key) {
            Some(i) => {
                assert(self.files()[i as int] == (parts_view(self.files@[i as int].0@), self.files@[i as int].1@));
                Some(self.files[i].1.clone())
            },
            None => None,
        }
    }
}

proof fn lemma_position_lookup(files: Seq<(Seq<PathPart>, Seq<char>)>, key: Seq<PathPart>, i: int)
    requires
        0 <= i,
    ensures
        key_position(files, key, i) == -1 || (i <= key_position(files, key, i) < files.len()),
        key_position(files, key, i) == -1 <==> lookup(files, key, i) is None,
        0 <= key_position(files, key, i) ==> lookup(files, key, i) == Some(files[key_position(files, key, i)].1)
            && files[key_position(files, key, i)].0 == key,
    decreases files.len() - i,
{
    if i < files.len() && files[i].0 != key {
        lemma_position_lookup(files, key, i + 1);
    }
}

/// Whether two paths have equal components.
pub fn comps_eq(a: &Vec<Comp>, b: &Vec<Comp>) -> (r: bool)
    ensures
        r == (parts_view(a@) == parts_view(b@)),
{
    if a.len() != b.len() {
        return false;
    }
    let mut i: usize = 0;
    while i < a.len()
        invariant
            a@.len() == b@.len(),
            i <= a@.len(),
            forall|k: int| 0 <= k < i ==> #[trigger] a@[k]@ == b@[k]@,
        decreases a@.len() - i,
    {
        if !comp_eq(&a[i], &b[i]) {
            assert(parts_view(a@)[i as int] != parts_view(b@)[i as int]);
            return false;
        }
        i = i + 1;
    }
    assert(parts_view(a@) =~= parts_view(b@));
    true
}

impl Filesystem for InMemoryFilesystem {
    open spec fn read_result(&self, path: Seq<char>) -> Result<Seq<char>, Seq<char>> {
        match lookup(self.files(), parts(path), 0) {
            Some(c) => Ok(c),
            None => Err("File not found: "@ + path),
        }
    }

    open spec fn resolve_result(&self, base: Seq<char>, relative: Seq<char>) -> Result<Seq<char>, Seq<char>> {
        Ok(render(normalized(join_parts(base_dir(self.files(), base), parts(relative)))))
    }

    open spec fn exists_result(&self, path: Seq<char>) -> bool {
        lookup(self.files(), parts(path), 0) is Some
    }

    open spec fn canonical_result(&self, path: Seq<char>) -> Result<Seq<char>, Seq<char>> {
        Ok(normalize_path_spec(path))
    }

    open spec fn effects(&self) -> Seq<FsEffect> {
        self.recorded()
    }

    /// A path that holds no file is reported as not found.
    fn read_to_string(&self, path: &str) -> (r: Result<String, FsError>)
        ensures
            r matches Err(e) ==> e.kind == FsErrorKind::NotFound,
    {
        let key = components(chars_of(path).as_slice());
        match self.content_of(&key) {
            Some(s) => Ok(s),
            None => {
                let mut m = owned("File not found: ");
                push_str(&mut m, path);
                Err(FsError { kind: FsErrorKind::NotFound, message: m })
            },
        }
    }

    fn resolve_path(&self, base: &str, relative: &str) -> (r: Result<String, FsError>) {
        let base_key = components(chars_of(base).as_slice());
        let mut dir = if self.content_of(&base_key).is_some() {
            if base_key.len() == 0 || matches!(base_key[base_key.len() - 1], Comp::Root) {
                let d = vec![Comp::Root];
                assert(parts_view(d@) =~= seq![PathPart::Root]);
                d
            } else {
                let mut d = copy_comps(&base_key);
                d.pop();
                assert(parts_view(d@) =~= parts_view(base_key@).drop_last());
                d
            }
        } else {
            base_key
        };
        let rel = components(chars_of(relative).as_slice());
        let joined = if rel.len() > 0 && matches!(rel[0], Comp::Root) {
            rel
        } else {
            let ghost d0 = parts_view(dir@);
            let mut rel = rel;
            let ghost r0 = parts_view(rel@);
            dir.append(&mut rel);
            assert(parts_view(dir@) =~= d0 + r0);
            dir
        };
        let n = normalize_comps(&joined);
        Ok(render_comps(&n))
    }

    fn file_exists(&self, path: &str) -> (r: bool) {
        let key = components(chars_of(path).as_slice());
        self.content_of(&key).is_some()
    }

    fn canonicalize(&self, path: &str) -> (r: Result<String, FsError>) {
        Ok(normalize_path(path))
    }

    /// The write is recorded; the stored files stay as they are.
    fn write_string(&mut self, path: &str, content: &str) -> (r: Result<(), FsError>)
        ensures
            r is Ok,
            final(self).files() == old(self).files(),
    {
        proof {
            self.log@ = self.log@.push(FsEffect::Write { path: path@, content: content@, outcome: Ok(()) });
        }
        Ok(())
    }

    /// Directories are implied by file paths: the creation is recorded,
    /// and nothing else changes.
    fn create_dir_all(&mut self, path: &str) -> (r: Result<(), FsError>)
        ensures
            r is Ok,
            final(self).files() == old(self).files(),
    {
        proof {
            self.log@ = self.log@.push(FsEffect::CreateDir { path: path@, outcome: Ok(()) });
        }
        Ok(())
    }
}

/// A boxed filesystem is the filesystem it holds.
impl<T: Filesystem + ?Sized> Filesystem for Box<T> {
    open spec fn read_result(&self, path: Seq<char>) -> Result<Seq<char>, Seq<char>> {
        (**self).read_result(path)
    }

    open spec fn resolve_result(&self, base: Seq<char>, relative: Seq<char>) -> Result<Seq<char>, Seq<char>> {
        (**self).resolve_result(base, relative)
    }

    open spec fn exists_result(&self, path: Seq<char>) -> bool {
        (**self).exists_result(path)
    }

    open spec fn canonical_result(&self, path: Seq<char>) -> Result<Seq<char>, Seq<char>> {
        (**self).canonical_result(path)
    }

    open spec fn effects(&self) -> Seq<FsEffect> {
        (**self).effects()
    }

    fn read_to_string(&self, path: &str) -> (r: Result<String, FsError>) {
        (**self).read_to_string(path)
    }

    fn resolve_path(&self, base: &str, relative: &str) -> (r: Result<String, FsError>) {
        (**self).resolve_path(base, relative)
    }

    fn file_exists(&self, path: &str) -> (r: bool) {
        (**self).file_exists(path)
    }

    fn canonicalize(&self, path: &str) -> (r: Result<String, FsError>) {
        (**self).canonicalize(path)
    }

    fn write_string(&mut self, path: &str, content: &str) -> (r: Result<(), FsError>) {
        (**self).write_string(path, content)
    }

    fn create_dir_all(&mut self, path: &str) -> (r: Result<(), FsError>) {
        (**self).create_dir_all(path)
    }
}


proof fn lemma_store_lookup(files: Seq<(Seq<PathPart>, Seq<char>)>, key: Seq<PathPart>, content: Seq<char>, other: Seq<PathPart>)
    ensures
        lookup(store(files, key, content), key, 0) == Some(content),
        other != key ==> lookup(store(files, key, content), other, 0) == lookup(files, other, 0),
{
    lemma_position_lookup(files, key, 0);
    let p = key_position(files, key, 0);
    let after = store(files, key, content);
    lemma_lookup_prefix(files, after, key, content, other, 0, p);
}

proof fn lemma_lookup_agree(
    a: Seq<(Seq<PathPart>, Seq<char>)>,
    b: Seq<(Seq<PathPart>, Seq<char>)>,
    k: Seq<PathPart>,
    i: int,
)
    requires
        0 <= i,
        a.len() == b.len(),
        forall|j: int| i <= j < a.len() ==> a[j] == b[j],
    ensures
        lookup(a, k, i) == lookup(b, k, i),
    decreases a.len() - i,
{
    if i < a.len() {
        lemma_lookup_agree(a, b, k, i + 1);
    }
}

/// Looking keys up in a file list after `content` is stored under `key`,
/// from a position `i` at or before where `key` is first found.
proof fn lemma_lookup_prefix(
    files: Seq<(Seq<PathPart>, Seq<char>)>,
    after: Seq<(Seq<PathPart>, Seq<char>)>,
    key: Seq<PathPart>,
    content: Seq<char>,
    other: Seq<PathPart>,
    i: int,
    p: int,
)
    requires
        0 <= i,
        p == key_position(files, key, 0),
        p == -1 || 0 <= p < files.len(),
        after == store(files, key, content),
        i <= p || (p == -1 && i <= files.len()),
        key_position(files, key, i) == key_position(files, key, 0),
    ensures
        lookup(after, key, i) == Some(content),
        other != key ==> lookup(after, other, i) == lookup(files, other, i),
    decreases after.len() - i,
{
    lemma_position_lookup(files, key, 0);
    lemma_position_lookup(files, key, i);
    if p == -1 {
        assert(after == files.push((key, content)));
        if i < files.len() {
            assert(files[i].0 != key);
            assert(after[i] == files[i]);
            lemma_lookup_prefix(files, after, key, content, other, i + 1, p);
        } else {
            assert(after[i] == (key, content));
            if other != key {
                assert(lookup(after, other, i + 1) == None::<Seq<char>>);
                assert(lookup(files, other, i) == None::<Seq<char>>);
            }
        }
    } else if i < p {
        assert(files[i].0 != key);
        assert(after[i] == files[i]);
        lemma_lookup_prefix(files, after, key, content, other, i + 1, p);
    } else {
        assert(after == files.update(p, (files[p].0, content)));
        assert(files[p].0 == key);
        assert(after[p] == (key, content));
        if other != key {
            lemma_lookup_agree(after, files, other, p + 1);
        }
    }
}

/// What is read from an in-memory filesystem after a file is added there
/// is the content added; every path with other components reads as it did.
pub proof fn lemma_read_after_add(
    before: InMemoryFilesystem,
    after: InMemoryFilesystem,
    path: Seq<char>,
    content: Seq<char>,
    other: Seq<char>,
)
    requires
        after.files() == store(before.files(), parts(path), content),
    ensures
        after.read_result(path) == Ok::<Seq<char>, Seq<char>>(content),
        after.exists_result(path),
        parts(other) != parts(path) ==> after.read_result(other) == before.read_result(other),
        parts(other) != parts(path) ==> after.exists_result(other) == before.exists_result(other),
{
    lemma_store_lookup(before.files(), parts(path), content, parts(other));
}


/// The paths, by components, that an in-memory filesystem holds.
pub open spec fn stored_keys(files: Seq<(Seq<PathPart>, Seq<char>)>) -> Set<Seq<PathPart>> {
    files.map_values(|e: (Seq<PathPart>, Seq<char>)| e.0).to_set()
}

/// Only the stored paths can be read from an in-memory filesystem.
pub proof fn lemma_readable_is_stored(fs: InMemoryFilesystem, path: Seq<char>)
    ensures
        fs.read_result(path) is Ok ==> stored_keys(fs.files()).contains(parts(path)),
{
    let files = fs.files();
    lemma_position_lookup(files, parts(path), 0);
    if fs.read_result(path) is Ok {
        let p = key_position(files, parts(path), 0);
        assert(files.map_values(|e: (Seq<PathPart>, Seq<char>)| e.0)[p] == parts(path));
    }
}

} // verus!
