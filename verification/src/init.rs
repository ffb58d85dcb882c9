//! The Init boundary: the template index and scaffolding a project from
//! the templates archive (a gzip-compressed tar file holding one directory
//! per template).
use crate::filesystem::{done_view, effects_since, head_create, head_write, Filesystem, FsEffect};
use crate::path::{
    comp_eq, components, copy_comp, join_path, join_text, parent_parts, parts, parts_view, render,
    render_comps, Comp, PathPart,
};
use crate::text::{
    chars_eq, chars_of, lines, owned, push_char, push_str, split_lines, starts_with, starts_with_str,
    str_eq, string_of, sub_chars, trim, trim_char, trim_char_chars, trim_chars,
};
use std::io::Read;
use vstd::prelude::*;

verus! {

/// An error that occurs during project initialization.
#[derive(Debug)]
pub struct InitError {
    pub message: String,
}

impl InitError {
    /// The error's message, as it is displayed.
    pub fn to_string(&self) -> (s: String)
        ensures
            s@ == self.message@,
    {
        self.message.clone()
    }
}

pub open spec fn init_view(r: Result<(), InitError>) -> Result<(), Seq<char>> {
    match r {
        Ok(_) => Ok(()),
        Err(e) => Err(e.message@),
    }
}

/// A template entry from the template index.
#[derive(Debug, Clone)]
pub struct TemplateEntry {
    pub name: String,
    pub language: String,
    pub description: String,
}

pub struct TemplateView {
    pub name: Seq<char>,
    pub language: Seq<char>,
    pub description: Seq<char>,
}

impl View for TemplateEntry {
    type V = TemplateView;

    open spec fn view(&self) -> TemplateView {
        TemplateView { name: self.name@, language: self.language@, description: self.description@ }
    }
}

pub open spec fn template_views(ts: Seq<TemplateEntry>) -> Seq<TemplateView> {
    ts.map_values(|t: TemplateEntry| t@)
}

/// The Init boundary trait.
///
/// Handles project scaffolding from the templates: lists the template
/// index, and copies a template's files into a target directory.
pub trait Init {
    /// The template index.
    spec fn index(&self) -> Seq<TemplateView>;

    /// The changes made to the filesystem through the initialiser so far,
    /// in order, with their outcomes.
    spec fn effects(&self) -> Seq<FsEffect>;

    /// What scaffolding the template `name` into `target_dir` gives, when
    /// `new` are the changes it made to the filesystem; `None` when those
    /// are not the changes it makes.
    spec fn scaffold_run(&self, name: Seq<char>, target_dir: Seq<char>, new: Seq<FsEffect>) -> Option<
        Result<(), Seq<char>>,
    >;

    /// Returns all available templates from the index.
    fn list_templates(&self) -> (r: Vec<TemplateEntry>)
        ensures
            template_views(r@) == self.index(),
    ;

    /// Scaffold a project from a template: the template's files (all but
    /// its `template.yaml`) are written under `target_dir`.
    fn scaffold(&mut self, template_name: &str, target_dir: &str) -> (r: Result<(), InitError>)
        ensures
            final(self).index() == old(self).index(),
            effects_since(old(self).effects(), final(self).effects()) matches Some(new)
                && old(self).scaffold_run(template_name@, target_dir@, new) == Some(init_view(r)),
    ;
}

// ---------------------------------------------------------------------------
// The template index
// ---------------------------------------------------------------------------
/// The value of a `field: value` line: the text after the colon, trimmed of
/// whitespace, then of double and then of single quotes.
pub open spec fn field_value(line: Seq<char>, field: Seq<char>) -> Option<Seq<char>> {
    let t = trim(line);
    let key = field.push(':');
    if starts_with(t, key) {
        Some(trim_char(trim_char(trim(t.skip(key.len() as int)), '"'), '\''))
    } else {
        None
    }
}

/// The value of the first line, from the `i`-th on, that sets `field`.
pub open spec fn find_field(ls: Seq<Seq<char>>, field: Seq<char>, i: int) -> Option<Seq<char>>
    decreases ls.len() - i,
{
    if i < 0 || i >= ls.len() {
        None
    } else {
        match field_value(ls[i], field) {
            Some(v) => Some(v),
            None => find_field(ls, field, i + 1),
        }
    }
}

/// The value that a template descriptor gives a field, if any.
pub open spec fn yaml_field(content: Seq<char>, field: Seq<char>) -> Option<Seq<char>> {
    find_field(lines(content), field, 0)
}

pub open spec fn or_empty(o: Option<Seq<char>>) -> Seq<char> {
    match o {
        Some(v) => v,
        None => Seq::empty(),
    }
}

/// The index entry of a template descriptor: its `name`, its `language`
/// (also read from a `laguage` line) and its `description`, each empty
/// when it is missing.
pub open spec fn template_of(content: Seq<char>) -> TemplateView {
    TemplateView {
        name: or_empty(yaml_field(content, "name"@)),
        language: match yaml_field(content, "language"@) {
            Some(v) => v,
            None => or_empty(yaml_field(content, "laguage"@)),
        },
        description: or_empty(yaml_field(content, "description"@)),
    }
}

fn line_field(line: &Vec<char>, key: &str) -> (r: Option<String>)
    requires
        key@.len() > 0 && key@.last() == ':',
    ensures
        match r {
            Some(v) => field_value(line@, key@.drop_last()) == Some(v@),
            None => field_value(line@, key@.drop_last()) is None,
        },
{
    assert(key@.drop_last().push(':') =~= key@);
    let t = trim_chars(line.as_slice());
    if !starts_with_str(t.as_slice(), key) {
        return None;
    }
    let k = chars_of(key);
    let rest = sub_chars(t.as_slice(), k.len(), t.len());
    assert(rest@ =~= t@.skip(k@.len() as int));
    let a = trim_chars(rest.as_slice());
    let b = trim_char_chars(a.as_slice(), '"');
    let c = trim_char_chars(b.as_slice(), '\'');
    Some(string_of(c.as_slice()))
}

/// The value of the first `field: value` line of a descriptor.
pub fn extract_yaml_field(content: &str, field: &str) -> (r: Option<String>)
    ensures
        match r {
            Some(v) => yaml_field(content@, field@) == Some(v@),
            None => yaml_field(content@, field@) is None,
        },
{
    let mut key = owned(field);
    push_char(&mut key, ':');
    assert(key@.drop_last() =~= field@);
    let ls = split_lines(chars_of(content).as_slice());
    let ghost lv = lines(content@);
    let mut i: usize = 0;
    while i < ls.len()
        invariant
            i <= ls@.len(),
            ls@.len() == lv.len(),
            lv == lines(content@),
            forall|k: int| 0 <= k < ls@.len() ==> #[trigger] ls@[k]@ == lv[k],
            key@.drop_last() == field@,
            key@.len() > 0 && key@.last() == ':',
            find_field(lv, field@, i as int) == find_field(lv, field@, 0),
        decreases ls@.len() - i,
    {
        assert(ls@[i as int]@ == lv[i as int]);
        match line_field(&ls[i], key.as_str()) {
            Some(v) => {
                return Some(v);
            },
            None => {},
        }
        i = i + 1;
    }
    None
}

/// The index entry that a template descriptor (`template.yaml`) gives.
pub fn template_entry(content: &str) -> (t: TemplateEntry)
    ensures
        t@ == template_of(content@),
{
    let name = extract_yaml_field(content, "name");
    let language = match extract_yaml_field(content, "language") {
        Some(v) => v,
        None => match extract_yaml_field(content, "laguage") {
            Some(v) => v,
            None => String::new(),
        },
    };
    let description = extract_yaml_field(content, "description");
    TemplateEntry {
        name: match name {
            Some(v) => v,
            None => String::new(),
        },
        language,
        description: match description {
            Some(v) => v,
            None => String::new(),
        },
    }
}

// ---------------------------------------------------------------------------
// The archive
// ---------------------------------------------------------------------------
/// An entry of the templates archive as it was read: its path (or the
/// error reading it), whether it is a directory, and its text (or the
/// error reading it); or the error that ended the listing.
pub enum ArchiveItem {
    Entry { path: Result<String, String>, is_dir: bool, content: Result<String, String> },
    Broken(String),
}

pub enum ItemView {
    Entry { path: Result<Seq<char>, Seq<char>>, is_dir: bool, content: Result<Seq<char>, Seq<char>> },
    Broken(Seq<char>),
}

pub open spec fn text_result(r: Result<String, String>) -> Result<Seq<char>, Seq<char>> {
    match r {
        Ok(s) => Ok(s@),
        Err(e) => Err(e@),
    }
}

impl View for ArchiveItem {
    type V = ItemView;

    open spec fn view(&self) -> ItemView {
        match self {
            ArchiveItem::Entry { path, is_dir, content } => ItemView::Entry {
                path: text_result(*path),
                is_dir: *is_dir,
                content: text_result(*content),
            },
            ArchiveItem::Broken(e) => ItemView::Broken(e@),
        }
    }
}

pub open spec fn listing_view(r: Result<Vec<ArchiveItem>, String>) -> Result<Seq<ItemView>, Seq<char>> {
    match r {
        Ok(v) => Ok(v@.map_values(|i: ArchiveItem| i@)),
        Err(e) => Err(e@),
    }
}

/// The entries that `tar` reads, in order, from the gzip-decompressed
/// `bytes`: an error opening the archive, or the entries read up to and
/// including the first error.
pub uninterp spec fn archive_listing(bytes: Seq<u8>) -> Result<Seq<ItemView>, Seq<char>>;

/// `tar::Archive::entries` over a `flate2::read::GzDecoder` of the bytes,
/// each entry taken as its path's display text (`Entry::path`), whether its
/// header marks a directory, and its content read as UTF-8 text
/// (`Read::read_to_string`). The contract names the listing; the archive
/// format is not stated.
#[verifier::external_body]
fn read_archive(bytes: &[u8]) -> (r: Result<Vec<ArchiveItem>, String>)
    ensures
        listing_view(r) == archive_listing(bytes@),
{
    let mut archive = tar::Archive::new(flate2::read::GzDecoder::new(bytes));
    let mut items = Vec::new();
    for entry in archive.entries().map_err(|e| e.to_string())? {
        items.push(match entry {
            Err(e) => ArchiveItem::Broken(e.to_string()),
            Ok(mut e) => {
                let path = e.path().map(|p| p.display().to_string()).map_err(|x| x.to_string());
                let mut t = String::new();
                let content = e.read_to_string(&mut t).map(|_| t).map_err(|x| x.to_string());
                ArchiveItem::Entry { path, is_dir: e.header().entry_type().is_dir(), content }
            },
        });
    }
    Ok(items)
}

// ---------------------------------------------------------------------------
// Scaffolding
// ---------------------------------------------------------------------------
/// Whether the index has a template of this name.
pub open spec fn has_template(ts: Seq<TemplateView>, name: Seq<char>) -> bool {
    exists|i: int| 0 <= i < ts.len() && #[trigger] ts[i].name == name
}

/// The components after `pre`, when the path's components begin with it.
pub open spec fn strip_parts(ps: Seq<PathPart>, pre: Seq<PathPart>) -> Option<Seq<PathPart>> {
    if pre.len() <= ps.len() && ps.take(pre.len() as int) == pre {
        Some(ps.skip(pre.len() as int))
    } else {
        None
    }
}

/// The template's descriptor, which is not copied.
pub open spec fn is_descriptor(rel: Seq<PathPart>) -> bool {
    rel == seq![PathPart::Normal("template.yaml"@)]
}

pub open spec fn dir_outcome(dir: Seq<char>, created: Result<(), Seq<char>>) -> Result<(), Seq<char>> {
    match created {
        Err(e) => Err("Failed to create dir '"@ + dir + "': "@ + e),
        Ok(_) => Ok(()),
    }
}

/// Creating the directory `dir`, when `log` begins with that creation:
/// what it gives, and the changes after it.
pub open spec fn create_step(log: Seq<FsEffect>, dir: Seq<char>) -> Option<(Result<(), Seq<char>>, Seq<FsEffect>)> {
    match head_create(log, dir) {
        None => None,
        Some(o) => Some((dir_outcome(dir, o), log.skip(1))),
    }
}

/// Writing a file entry of path `path` to `dest`, when `log` begins with
/// the changes that makes: its parent directory is created, then, if
/// that succeeded and the entry's text was read, the text is written.
/// What it gives, and the changes after it.
pub open spec fn file_steps(
    path: Seq<char>,
    dest: Seq<char>,
    content: Result<Seq<char>, Seq<char>>,
    log: Seq<FsEffect>,
) -> Option<(Result<(), Seq<char>>, Seq<FsEffect>)> {
    let parent = match parent_parts(parts(dest)) {
        None => Some((Ok(()), log)),
        Some(pp) => create_step(log, render(pp)),
    };
    match parent {
        None => None,
        Some((Err(e), rest)) => Some((Err(e), rest)),
        Some((Ok(_), rest)) => match content {
            Err(e) => Some((Err("Failed to read '"@ + path + "': "@ + e), rest)),
            Ok(c) => match head_write(rest, dest, c) {
                None => None,
                Some(Err(e)) => Some((Err("Failed to write '"@ + dest + "': "@ + e), rest.skip(1))),
                Some(Ok(_)) => Some((Ok(()), rest.skip(1))),
            },
        },
    }
}

/// Placing one archive item, when `log` begins with the changes that
/// makes: entries outside the template's directory, the directory itself
/// and its descriptor are passed over with no change; a directory entry is
/// created and a file entry written under `target`. What it gives, and the
/// changes after it.
pub open spec fn item_steps(item: ItemView, name: Seq<char>, target: Seq<char>, log: Seq<FsEffect>) -> Option<
    (Result<(), Seq<char>>, Seq<FsEffect>),
> {
    match item {
        ItemView::Broken(e) => Some((Err("Failed to read archive entry: "@ + e), log)),
        ItemView::Entry { path, is_dir, content } => match path {
            Err(e) => Some((Err("Invalid entry path: "@ + e), log)),
            Ok(p) => match strip_parts(parts(p), parts(name)) {
                None => Some((Ok(()), log)),
                Some(rel) => if rel.len() == 0 || is_descriptor(rel) {
                    Some((Ok(()), log))
                } else {
                    let dest = join_text(target, render(rel));
                    if is_dir {
                        create_step(log, dest)
                    } else {
                        file_steps(p, dest, content, log)
                    }
                },
            },
        },
    }
}

/// Placing the items from the `i`-th on, in order, stopping at the first
/// error, when `log` holds exactly the changes made on the way.
pub open spec fn run_items(items: Seq<ItemView>, name: Seq<char>, target: Seq<char>, i: int, log: Seq<FsEffect>) -> Option<
    Result<(), Seq<char>>,
>
    decreases items.len() - i,
{
    if i < 0 || i >= items.len() {
        if log.len() == 0 {
            Some(Ok(()))
        } else {
            None
        }
    } else {
        match item_steps(items[i], name, target, log) {
            None => None,
            Some((Err(e), rest)) => if rest.len() == 0 {
                Some(Err(e))
            } else {
                None
            },
            Some((Ok(_), rest)) => run_items(items, name, target, i + 1, rest),
        }
    }
}

/// What scaffolding gives, when `new` are the changes it made: an unknown
/// template is refused, and an archive that cannot be opened reported,
/// with no change; otherwise every entry of the archive is placed, in
/// order, stopping at the first error.
pub open spec fn scaffold_spec(
    index: Seq<TemplateView>,
    archive: Seq<u8>,
    name: Seq<char>,
    target: Seq<char>,
    new: Seq<FsEffect>,
) -> Option<Result<(), Seq<char>>> {
    if !has_template(index, name) {
        if new.len() == 0 {
            Some(Err("Unknown template: '"@ + name + "'"@))
        } else {
            None
        }
    } else {
        match archive_listing(archive) {
            Err(e) => if new.len() == 0 {
                Some(Err("Failed to read templates archive: "@ + e))
            } else {
                None
            },
            Ok(items) => run_items(items, name, target, 0, new),
        }
    }
}

/// Project initialisation over a filesystem, a template index and the
/// templates archive.
pub struct InitImpl<F: Filesystem> {
    fs: F,
    templates: Vec<TemplateEntry>,
    archive: Vec<u8>,
}

fn copy_entry(t: &TemplateEntry) -> (r: TemplateEntry)
    ensures
        r@ == t@,
{
    TemplateEntry { name: t.name.clone(), language: t.language.clone(), description: t.description.clone() }
}

fn message2(prefix: &str, a: &str) -> (m: String)
    ensures
        m@ == prefix@ + a@,
{
    let mut m = owned(prefix);
    push_str(&mut m, a);
    m
}

fn message4(prefix: &str, a: &str, sep: &str, b: &str) -> (m: String)
    ensures
        m@ == prefix@ + a@ + sep@ + b@,
{
    let mut m = owned(prefix);
    push_str(&mut m, a);
    push_str(&mut m, sep);
    push_str(&mut m, b);
    m
}

/// The components after `pre`, when `ps` begins with them.
fn strip_comps(ps: &Vec<Comp>, pre: &Vec<Comp>) -> (r: Option<Vec<Comp>>)
    ensures
        match r {
            Some(v) => strip_parts(parts_view(ps@), parts_view(pre@)) == Some(parts_view(v@)),
            None => strip_parts(parts_view(ps@), parts_view(pre@)) is None,
        },
{
    let ghost pv = parts_view(ps@);
    let ghost qv = parts_view(pre@);
    if pre.len() > ps.len() {
        return None;
    }
    let mut i: usize = 0;
    while i < pre.len()
        invariant
            i <= pre@.len() <= ps@.len(),
            pv == parts_view(ps@),
            qv == parts_view(pre@),
            forall|k: int| 0 <= k < i ==> pv[k] == qv[k],
        decreases pre@.len() - i,
    {
        if !comp_eq(&ps[i], &pre[i]) {
            assert(pv.take(qv.len() as int)[i as int] != qv[i as int]);
            return None;
        }
        i = i + 1;
    }
    assert(pv.take(qv.len() as int) =~= qv);
    let mut rest: Vec<Comp> = Vec::new();
    let mut j: usize = pre.len();
    while j < ps.len()
        invariant
            pre@.len() <= j <= ps@.len(),
            pv == parts_view(ps@),
            parts_view(rest@) == pv.subrange(pre@.len() as int, j as int),
        decreases ps@.len() - j,
    {
        let c = copy_comp(&ps[j]);
        let ghost before = rest@;
        rest.push(c);
        assert(parts_view(rest@) =~= parts_view(before).push(c@));
        assert(pv.subrange(pre@.len() as int, j + 1) =~= pv.subrange(pre@.len() as int, j as int).push(pv[j as int]));
        j = j + 1;
    }
    assert(pv.subrange(pre@.len() as int, ps@.len() as int) =~= pv.skip(qv.len() as int));
    Some(rest)
}

/// Whether the components are exactly `template.yaml`.
fn is_descriptor_comps(rel: &Vec<Comp>) -> (r: bool)
    ensures
        r == is_descriptor(parts_view(rel@)),
{
    let name = chars_of("template.yaml");
    if rel.len() == 1 {
        match &rel[0] {
            Comp::Normal(v) => {
                let eq = chars_eq(v.as_slice(), name.as_slice());
                proof {
                    if eq {
                        assert(parts_view(rel@) =~= seq![PathPart::Normal("template.yaml"@)]);
                    } else {
                        assert(parts_view(rel@)[0] != PathPart::Normal("template.yaml"@));
                    }
                }
                eq
            },
            _ => {
                assert(parts_view(rel@)[0] != PathPart::Normal("template.yaml"@));
                false
            },
        }
    } else {
        assert(parts_view(rel@).len() != 1);
        false
    }
}

/// The parent of a path, rendered from its components: the components
/// without the last, as `Path::parent` gives them, with `.` segments and
/// repeated separators left out of the text.
fn parent_text(path: &str) -> (r: Option<String>)
    ensures
        match r {
            Some(t) => parent_parts(parts(path@)) matches Some(pp) && t@ == render(pp),
            None => parent_parts(parts(path@)) is None,
        },
{
    let mut cs = components(chars_of(path).as_slice());
    if cs.len() == 0 {
        return None;
    }
    match &cs[cs.len() - 1] {
        Comp::Root => {
            return None;
        },
        _ => {},
    }
    let ghost before = parts_view(cs@);
    cs.pop();
    assert(parts_view(cs@) =~= before.drop_last());
    Some(render_comps(&cs))
}

impl<F: Filesystem> InitImpl<F> {
    pub closed spec fn filesystem(&self) -> F {
        self.fs
    }

    pub closed spec fn templates(&self) -> Seq<TemplateView> {
        template_views(self.templates@)
    }

    pub closed spec fn archive_bytes(&self) -> Seq<u8> {
        self.archive@
    }

    /// Initialisation through `fs` with no templates.
    pub fn new(fs: F) -> (r: Self)
        ensures
            r.filesystem() == fs,
            r.templates() == Seq::<TemplateView>::empty(),
            r.archive_bytes() == Seq::<u8>::empty(),
    {
        let r = InitImpl { fs, templates: Vec::new(), archive: Vec::new() };
        assert(r.templates() =~= Seq::<TemplateView>::empty());
        r
    }

    /// Initialisation through `fs` from a template index and the archive
    /// that holds the templates.
    pub fn with_templates(fs: F, templates: Vec<TemplateEntry>, archive: Vec<u8>) -> (r: Self)
        ensures
            r.filesystem() == fs,
            r.templates() == template_views(templates@),
            r.archive_bytes() == archive@,
    {
        InitImpl { fs, templates, archive }
    }

    fn knows(&self, name: &str) -> (r: bool)
        ensures
            r == has_template(self.templates(), name@),
    {
        let ghost tv = self.templates();
        let mut i: usize = 0;
        while i < self.templates.len()
            invariant
                i <= self.templates@.len(),
                tv == self.templates(),
                forall|k: int| 0 <= k < i ==> #[trigger] tv[k].name != name@,
            decreases self.templates@.len() - i,
        {
            assert(tv[i as int] == self.templates@[i as int]@);
            if str_eq(self.templates[i].name.as_str(), name) {
                assert(tv[i as int].name == name@);
                return true;
            }
            i = i + 1;
        }
        false
    }

    /// Creates the directory `dir`; gives back the changes made.
    fn create_dir(&mut self, dir: &str) -> (r: (Result<(), InitError>, Ghost<Seq<FsEffect>>))
        ensures
            final(self).templates() == old(self).templates(),
            final(self).archive_bytes() == old(self).archive_bytes(),
            final(self).filesystem().effects() == old(self).filesystem().effects() + r.1@,
            forall|ext: Seq<FsEffect>| #[trigger] create_step(r.1@ + ext, dir@) == Some((init_view(r.0), ext)),
    {
        let ghost e0 = self.fs.effects();
        let created = self.fs.create_dir_all(dir);
        let ghost d = seq![FsEffect::CreateDir { path: dir@, outcome: done_view(created) }];
        assert(self.fs.effects() =~= e0 + d);
        let res = match created {
            Err(e) => Err(InitError { message: message4("Failed to create dir '", dir, "': ", e.message.as_str()) }),
            Ok(_) => Ok(()),
        };
        assert forall|ext: Seq<FsEffect>| #[trigger] create_step(d + ext, dir@) == Some((init_view(res), ext)) by {
            assert((d + ext)[0] == d[0]);
            assert((d + ext).skip(1) =~= ext);
        }
        (res, Ghost(d))
    }

    /// Writes a file entry of path `path` to `dest`; gives back the
    /// changes made.
    fn place_file(&mut self, path: &str, dest: &str, content: &Result<String, String>) -> (r: (
        Result<(), InitError>,
        Ghost<Seq<FsEffect>>,
    ))
        ensures
            final(self).templates() == old(self).templates(),
            final(self).archive_bytes() == old(self).archive_bytes(),
            final(self).filesystem().effects() == old(self).filesystem().effects() + r.1@,
            forall|ext: Seq<FsEffect>| #[trigger] file_steps(path@, dest@, text_result(*content), r.1@ + ext) == Some(
                (init_view(r.0), ext),
            ),
    {
        let ghost e0 = self.fs.effects();
        let ghost mut d1 = Seq::<FsEffect>::empty();
        match parent_text(dest) {
            Some(p) => {
                let (created, Ghost(d)) = self.create_dir(p.as_str());
                proof {
                    d1 = d;
                }
                match created {
                    Err(e) => {
                        assert forall|ext: Seq<FsEffect>| #[trigger] file_steps(path@, dest@, text_result(*content), d1 + ext)
                            == Some((init_view(Err::<(), InitError>(e)), ext)) by {
                            assert(create_step(d1 + ext, p@) == Some((init_view(Err::<(), InitError>(e)), ext)));
                        }
                        return (Err(e), Ghost(d1));
                    },
                    Ok(_) => {},
                }
            },
            None => {
                assert(e0 + d1 =~= e0);
            },
        }
        let ghost e1 = self.fs.effects();
        assert(e1 == e0 + d1);
        // Once the parent directory is there, the changes that follow begin
        // after d1.
        assert forall|ext: Seq<FsEffect>| #![trigger d1 + ext]
            (match parent_parts(parts(dest@)) {
                None => Some((Ok::<(), Seq<char>>(()), d1 + ext)),
                Some(pp) => create_step(d1 + ext, render(pp)),
            }) == Some((Ok::<(), Seq<char>>(()), ext)) by {
            if parent_parts(parts(dest@)) is None {
                assert(d1 + ext =~= ext);
            } else {
                assert(create_step(d1 + ext, render(parent_parts(parts(dest@))->0)) == Some((Ok::<(), Seq<char>>(()), ext)));
            }
        }
        match content {
            Err(e) => {
                let res = Err(InitError { message: message4("Failed to read '", path, "': ", e.as_str()) });
                assert forall|ext: Seq<FsEffect>| #[trigger] file_steps(path@, dest@, text_result(*content), d1 + ext)
                    == Some((init_view(res), ext)) by {
                }
                (res, Ghost(d1))
            },
            Ok(c) => {
                let written = self.fs.write_string(dest, c.as_str());
                let ghost w = FsEffect::Write { path: dest@, content: c@, outcome: done_view(written) };
                let ghost d = d1.push(w);
                assert(self.fs.effects() =~= e0 + d);
                let res = match written {
                    Err(e) => Err(InitError { message: message4("Failed to write '", dest, "': ", e.message.as_str()) }),
                    Ok(_) => Ok(()),
                };
                assert forall|ext: Seq<FsEffect>| #[trigger] file_steps(path@, dest@, text_result(*content), d + ext)
                    == Some((init_view(res), ext)) by {
                    let tail = seq![w] + ext;
                    assert(d + ext =~= d1 + tail);
                    assert(tail[0] == w);
                    assert(tail.skip(1) =~= ext);
                }
                (res, Ghost(d))
            },
        }
    }

    /// Places one archive item under `target_dir`; gives back the changes
    /// made.
    fn place(&mut self, item: &ArchiveItem, prefix: &Vec<Comp>, name: &str, target_dir: &str) -> (r: (
        Result<(), InitError>,
        Ghost<Seq<FsEffect>>,
    ))
        requires
            parts_view(prefix@) == parts(name@),
        ensures
            final(self).templates() == old(self).templates(),
            final(self).archive_bytes() == old(self).archive_bytes(),
            final(self).filesystem().effects() == old(self).filesystem().effects() + r.1@,
            forall|ext: Seq<FsEffect>| #[trigger] item_steps(item@, name@, target_dir@, r.1@ + ext) == Some(
                (init_view(r.0), ext),
            ),
    {
        let ghost e0 = self.fs.effects();
        let ghost none = Seq::<FsEffect>::empty();
        assert(e0 + none =~= e0);
        assert forall|ext: Seq<FsEffect>| #[trigger] (none + ext) == ext by {
            assert(none + ext =~= ext);
        }
        match item {
            ArchiveItem::Broken(e) => (
                Err(InitError { message: message2("Failed to read archive entry: ", e.as_str()) }),
                Ghost(none),
            ),
            ArchiveItem::Entry { path, is_dir, content } => match path {
                Err(e) => (Err(InitError { message: message2("Invalid entry path: ", e.as_str()) }), Ghost(none)),
                Ok(p) => {
                    let ps = components(chars_of(p.as_str()).as_slice());
                    match strip_comps(&ps, prefix) {
                        None => (Ok(()), Ghost(none)),
                        Some(rel) => {
                            if rel.len() == 0 || is_descriptor_comps(&rel) {
                                (Ok(()), Ghost(none))
                            } else {
                                let rel_text = render_comps(&rel);
                                let dest = join_path(target_dir, rel_text.as_str());
                                if *is_dir {
                                    self.create_dir(dest.as_str())
                                } else {
                                    self.place_file(p.as_str(), dest.as_str(), content)
                                }
                            }
                        },
                    }
                },
            },
        }
    }
}

impl<F: Filesystem> Init for InitImpl<F> {
    open spec fn index(&self) -> Seq<TemplateView> {
        self.templates()
    }

    open spec fn effects(&self) -> Seq<FsEffect> {
        self.filesystem().effects()
    }

    open spec fn scaffold_run(&self, name: Seq<char>, target_dir: Seq<char>, new: Seq<FsEffect>) -> Option<
        Result<(), Seq<char>>,
    > {
        scaffold_spec(self.templates(), self.archive_bytes(), name, target_dir, new)
    }

    fn list_templates(&self) -> (r: Vec<TemplateEntry>) {
        let ghost tv = self.templates();
        let mut r: Vec<TemplateEntry> = Vec::new();
        let mut i: usize = 0;
        while i < self.templates.len()
            invariant
                i <= self.templates@.len(),
                tv == self.templates(),
                template_views(r@) == tv.take(i as int),
            decreases self.templates@.len() - i,
        {
            let t = copy_entry(&self.templates[i]);
            let ghost before = r@;
            r.push(t);
            assert(template_views(r@) =~= template_views(before).push(t@));
            assert(tv.take(i + 1) =~= tv.take(i as int).push(tv[i as int]));
            i = i + 1;
        }
        assert(tv.take(self.templates@.len() as int) =~= tv);
        r
    }

    fn scaffold(&mut self, template_name: &str, target_dir: &str) -> (r: Result<(), InitError>) {
        let ghost e0 = self.fs.effects();
        let ghost t0 = self.templates();
        let ghost a0 = self.archive_bytes();
        assert(e0.take(e0.len() as int) =~= e0);
        assert(e0.skip(e0.len() as int) =~= Seq::<FsEffect>::empty());
        if !self.knows(template_name) {
            let mut m = owned("Unknown template: '");
            push_str(&mut m, template_name);
            push_str(&mut m, "'");
            return Err(InitError { message: m });
        }
        let items = match read_archive(self.archive.as_slice()) {
            Err(e) => {
                return Err(InitError { message: message2("Failed to read templates archive: ", e.as_str()) });
            },
            Ok(v) => v,
        };
        let ghost iv = items@.map_values(|i: ArchiveItem| i@);
        let prefix = components(chars_of(template_name).as_slice());
        let ghost mut done = Seq::<FsEffect>::empty();
        assert(e0 + done =~= e0);
        assert forall|ext: Seq<FsEffect>| #[trigger] run_items(iv, template_name@, target_dir@, 0, done + ext)
            == run_items(iv, template_name@, target_dir@, 0, ext) by {
            assert(done + ext =~= ext);
        }
        let mut i: usize = 0;
        while i < items.len()
            invariant
                i <= items@.len(),
                iv == items@.map_values(|i: ArchiveItem| i@),
                parts_view(prefix@) == parts(template_name@),
                self.templates() == t0,
                self.archive_bytes() == a0,
                t0 == old(self).templates(),
                a0 == old(self).archive_bytes(),
                e0 == old(self).fs.effects(),
                has_template(t0, template_name@),
                archive_listing(a0) == Ok::<Seq<ItemView>, Seq<char>>(iv),
                self.fs.effects() == e0 + done,
                forall|ext: Seq<FsEffect>| #[trigger] run_items(iv, template_name@, target_dir@, 0, done + ext)
                    == run_items(iv, template_name@, target_dir@, i as int, ext),
            decreases items@.len() - i,
        {
            assert(iv[i as int] == items@[i as int]@);
            let (placed, Ghost(d)) = self.place(&items[i], &prefix, template_name, target_dir);
            let ghost before = done;
            proof {
                done = done + d;
                assert(self.fs.effects() =~= e0 + done);
            }
            match placed {
                Err(e) => {
                    proof {
                        let empty = Seq::<FsEffect>::empty();
                        assert(d + empty =~= d);
                        assert(before + (d + empty) =~= done);
                        assert(item_steps(iv[i as int], template_name@, target_dir@, d + empty) == Some(
                            (init_view(Err::<(), InitError>(e)), empty),
                        ));
                        assert(run_items(iv, template_name@, target_dir@, 0, before + (d + empty))
                            == run_items(iv, template_name@, target_dir@, i as int, d + empty));
                        let e2 = self.fs.effects();
                        assert(e2.take(e0.len() as int) =~= e0);
                        assert(e2.skip(e0.len() as int) =~= done);
                    }
                    return Err(e);
                },
                Ok(_) => {
                    assert forall|ext: Seq<FsEffect>| #[trigger] run_items(iv, template_name@, target_dir@, 0, done + ext)
                        == run_items(iv, template_name@, target_dir@, i + 1, ext) by {
                        assert(done + ext =~= before + (d + ext));
                        assert(item_steps(iv[i as int], template_name@, target_dir@, d + ext) == Some(
                            (Ok::<(), Seq<char>>(()), ext),
                        ));
                        assert(run_items(iv, template_name@, target_dir@, 0, before + (d + ext))
                            == run_items(iv, template_name@, target_dir@, i as int, d + ext));
                    }
                },
            }
            i = i + 1;
        }
        proof {
            let empty = Seq::<FsEffect>::empty();
            assert(done + empty =~= done);
            assert(run_items(iv, template_name@, target_dir@, 0, done + empty)
                == run_items(iv, template_name@, target_dir@, i as int, empty));
            let e2 = self.fs.effects();
            assert(e2.take(e0.len() as int) =~= e0);
            assert(e2.skip(e0.len() as int) =~= done);
        }
        Ok(())
    }
}

} // verus!
