//! The AiProvider boundary and an implementation for AI assistants that
//! keep skills under a settings directory: installing the CABIDL skill
//! file and initialising a project for the assistant.
use crate::diagram_provider::opt_str_view;
use crate::filesystem::{done_view, effects_since, head_create, single_write, Filesystem, FsEffect, FsError};
use crate::path::{join_path, join_text};
use crate::text::{chars_of, owned, push_char, push_str, sub_chars};
use vstd::prelude::*;

verus! {

/// An error that occurs during AI provider operations.
#[derive(Debug)]
pub struct AiProviderError {
    pub message: String,
}

impl AiProviderError {
    /// The error's message, as it is displayed.
    pub fn to_string(&self) -> (s: String)
        ensures
            s@ == self.message@,
    {
        self.message.clone()
    }
}

pub open spec fn ai_view(r: Result<(), AiProviderError>) -> Result<(), Seq<char>> {
    match r {
        Ok(_) => Ok(()),
        Err(e) => Err(e.message@),
    }
}

/// The AiProvider boundary trait.
///
/// Abstracts AI tool provider operations such as installing skill files.
/// Each implementer handles the provider-specific directory structure and
/// conventions (such as `<settings dir>/skills/<name>/SKILL.md`).
pub trait AiProvider {
    /// The provider's name.
    spec fn provider_id(&self) -> Seq<char>;

    /// The changes made to the filesystem through the provider so far, in
    /// order, with their outcomes.
    spec fn effects(&self) -> Seq<FsEffect>;

    /// What installing a skill gives, when `new` are the changes it made
    /// to the filesystem; `None` when those are not the changes it makes.
    spec fn install_run(&self, target_dir: Option<Seq<char>>, skill_content: Seq<char>, new: Seq<FsEffect>) -> Option<
        Result<(), Seq<char>>,
    >;

    /// What initialising a project gives, when `new` are the changes it
    /// made to the filesystem; `None` when those are not the changes it
    /// makes.
    spec fn init_run(&self, target_dir: Seq<char>, new: Seq<FsEffect>) -> Option<Result<(), Seq<char>>>;

    /// Returns the provider name.
    fn provider_name(&self) -> (r: &str)
        ensures
            r@ == self.provider_id(),
    ;

    /// Install a skill file to the provider's skill directory. With no
    /// `target_dir`, the provider's default location is used.
    fn install_skill(&mut self, target_dir: Option<&str>, skill_content: &str) -> (r: Result<(), AiProviderError>)
        ensures
            final(self).provider_id() == old(self).provider_id(),
            effects_since(old(self).effects(), final(self).effects()) matches Some(new)
                && old(self).install_run(opt_str_view(target_dir), skill_content@, new) == Some(ai_view(r)),
    ;

    /// Initialize provider-specific project files in the target directory.
    fn init_project(&mut self, target_dir: &str) -> (r: Result<(), AiProviderError>)
        ensures
            final(self).provider_id() == old(self).provider_id(),
            effects_since(old(self).effects(), final(self).effects()) matches Some(new)
                && old(self).init_run(target_dir@, new) == Some(ai_view(r)),
    ;
}

/// The conventions of an AI assistant: its name, the directory under the
/// home directory that holds its settings, and the file in a project that
/// holds its instructions.
pub struct AssistantProfile {
    pub name: String,
    pub config_dir: String,
    pub instructions_file: String,
}

pub struct ProfileView {
    pub name: Seq<char>,
    pub config_dir: Seq<char>,
    pub instructions_file: Seq<char>,
}

impl View for AssistantProfile {
    type V = ProfileView;

    open spec fn view(&self) -> ProfileView {
        ProfileView { name: self.name@, config_dir: self.config_dir@, instructions_file: self.instructions_file@ }
    }
}

/// The part of a provider name before its first `-` (all of it when it has
/// none).
pub open spec fn name_stem(name: Seq<char>) -> Seq<char> {
    let i = first_dash(name, 0);
    name.take(i)
}

/// The first index at or after `i` holding a `-` (or the length).
pub open spec fn first_dash(s: Seq<char>, i: int) -> int
    decreases s.len() - i,
{
    if 0 <= i < s.len() && s[i] != '-' {
        first_dash(s, i + 1)
    } else {
        i
    }
}

/// An ASCII letter in upper case; any other character as it is.
pub open spec fn upper(c: char) -> char {
    if 'a' <= c <= 'z' {
        ((c as u32) - 32) as char
    } else {
        c
    }
}

/// The profile that a provider name gives: settings under `.<stem>` and
/// instructions in `<STEM>.md`, where the stem is the name up to its first
/// `-`.
pub open spec fn profile_for_name(name: Seq<char>) -> ProfileView {
    ProfileView {
        name,
        config_dir: "."@ + name_stem(name),
        instructions_file: name_stem(name).map_values(|c: char| upper(c)) + ".md"@,
    }
}

fn upper_char(c: char) -> (r: char)
    ensures
        r == upper(c),
{
    if 'a' <= c && c <= 'z' {
        let u = (c as u32) - 32;
        assert(0x41 <= u <= 0x5a);
        let r = char_from(u);
        r
    } else {
        c
    }
}

/// The character with code point `u`, for a code point of an ASCII
/// capital letter.
fn char_from(u: u32) -> (c: char)
    requires
        0x41 <= u <= 0x5a,
    ensures
        c == u as char,
{
    let b = u as u8;
    b as char
}

impl AssistantProfile {
    /// The profile of the assistant with this provider name.
    pub fn for_name(name: &str) -> (p: AssistantProfile)
        ensures
            p@ == profile_for_name(name@),
    {
        let v = chars_of(name);
        let mut i: usize = 0;
        while i < v.len() && v[i] != '-'
            invariant
                i <= v@.len(),
                v@ == name@,
                first_dash(name@, i as int) == first_dash(name@, 0),
            decreases v@.len() - i,
        {
            i = i + 1;
        }
        let stem = sub_chars(v.as_slice(), 0, i);
        assert(stem@ == name_stem(name@));
        let mut config_dir = owned(".");
        let mut file = String::new();
        let mut k: usize = 0;
        while k < stem.len()
            invariant
                k <= stem@.len(),
                config_dir@ == "."@ + stem@.take(k as int),
                file@ == stem@.take(k as int).map_values(|c: char| upper(c)),
            decreases stem@.len() - k,
        {
            push_char(&mut config_dir, stem[k]);
            push_char(&mut file, upper_char(stem[k]));
            assert(stem@.take(k + 1) =~= stem@.take(k as int).push(stem@[k as int]));
            assert(stem@.take(k + 1).map_values(|c: char| upper(c)) =~= stem@.take(k as int).map_values(
                |c: char| upper(c),
            ).push(upper(stem@[k as int])));
            k = k + 1;
        }
        assert(stem@.take(stem@.len() as int) =~= stem@);
        push_str(&mut file, ".md");
        AssistantProfile { name: owned(name), config_dir, instructions_file: file }
    }
}

/// An AI assistant provider: skills go to `<base>/cabidl/SKILL.md`, where
/// the base is the target directory or `<home>/<config dir>/skills`, and a
/// project gets the assistant's instructions file.
pub struct AssistantProvider<F: Filesystem> {
    fs: F,
    profile: AssistantProfile,
    home: Option<String>,
}

/// The text written to a project's instructions file.
pub open spec fn instructions_text() -> Seq<char> {
    "* The specification for how this software is built is defined in cabidl/cabidl.md and it use /cabidl skill to understand how to build a project with cabidl specifications and that skill will use the cabidl cli that you have installed.\n"@
}

/// The directory under which skills are installed by default.
pub open spec fn default_skills_dir(home: Seq<char>, config_dir: Seq<char>) -> Seq<char> {
    join_text(join_text(home, config_dir), "skills"@)
}

/// The base directory of an installation, or the error when none can be
/// determined.
pub open spec fn skills_base(target_dir: Option<Seq<char>>, home: Option<Seq<char>>, config_dir: Seq<char>) -> Result<
    Seq<char>,
    Seq<char>,
> {
    match target_dir {
        Some(d) => Ok(d),
        None => match home {
            Some(h) => Ok(default_skills_dir(h, config_dir)),
            None => Err("Could not determine home directory"@),
        },
    }
}

pub open spec fn skill_dir(base: Seq<char>) -> Seq<char> {
    join_text(base, "cabidl"@)
}

pub open spec fn skill_file(base: Seq<char>) -> Seq<char> {
    join_text(skill_dir(base), "SKILL.md"@)
}

/// What an installation into `base` gives, when `new` are the changes it
/// made: the directory `<base>/cabidl` is created, then, if that
/// succeeded, the skill is written to `<base>/cabidl/SKILL.md`; nothing
/// else is changed.
pub open spec fn install_outcome(base: Seq<char>, skill_content: Seq<char>, new: Seq<FsEffect>) -> Option<
    Result<(), Seq<char>>,
> {
    match head_create(new, skill_dir(base)) {
        None => None,
        Some(Err(e)) => if new.len() == 1 {
            Some(Err("Failed to create directory '"@ + skill_dir(base) + "': "@ + e))
        } else {
            None
        },
        Some(Ok(_)) => match single_write(new.skip(1), skill_file(base), skill_content) {
            None => None,
            Some(Err(e)) => Some(Err("Failed to write skill file '"@ + skill_file(base) + "': "@ + e)),
            Some(Ok(_)) => Some(Ok(())),
        },
    }
}

/// What writing the instructions file `file` gives, when `new` are the
/// changes made: that one write, and nothing else.
pub open spec fn init_outcome(file: Seq<char>, new: Seq<FsEffect>) -> Option<Result<(), Seq<char>>> {
    match single_write(new, file, instructions_text()) {
        None => None,
        Some(Err(e)) => Some(Err("Failed to write '"@ + file + "': "@ + e)),
        Some(Ok(_)) => Some(Ok(())),
    }
}

fn fs_message(prefix: &str, path: &str, e: &FsError) -> (m: String)
    ensures
        m@ == prefix@ + path@ + "': "@ + e.message@,
{
    let mut m = owned(prefix);
    push_str(&mut m, path);
    push_str(&mut m, "': ");
    push_str(&mut m, e.message.as_str());
    m
}

impl<F: Filesystem> AssistantProvider<F> {
    /// The filesystem that files are written to.
    pub closed spec fn filesystem(&self) -> F {
        self.fs
    }

    /// The assistant's conventions.
    pub closed spec fn profile(&self) -> ProfileView {
        self.profile@
    }

    /// The home directory, when it is known.
    pub closed spec fn home_dir(&self) -> Option<Seq<char>> {
        match self.home {
            Some(h) => Some(h@),
            None => None,
        }
    }

    /// A provider that writes through `fs`, with no home directory known.
    pub fn new(fs: F, profile: AssistantProfile) -> (p: Self)
        ensures
            p.filesystem() == fs,
            p.profile() == profile@,
            p.home_dir() is None,
    {
        AssistantProvider { fs, profile, home: None }
    }

    /// A provider that writes through `fs`, with `home` as the home
    /// directory.
    pub fn with_home(fs: F, profile: AssistantProfile, home: Option<String>) -> (p: Self)
        ensures
            p.filesystem() == fs,
            p.profile() == profile@,
            p.home_dir() == (match home {
                Some(h) => Some(h@),
                None => None::<Seq<char>>,
            }),
    {
        AssistantProvider { fs, profile, home }
    }
}

impl<F: Filesystem> AiProvider for AssistantProvider<F> {
    open spec fn provider_id(&self) -> Seq<char> {
        self.profile().name
    }

    open spec fn effects(&self) -> Seq<FsEffect> {
        self.filesystem().effects()
    }

    /// The skill is written to `<base>/cabidl/SKILL.md` after that
    /// directory is created.
    open spec fn install_run(&self, target_dir: Option<Seq<char>>, skill_content: Seq<char>, new: Seq<FsEffect>) -> Option<
        Result<(), Seq<char>>,
    > {
        match skills_base(target_dir, self.home_dir(), self.profile().config_dir) {
            Err(e) => if new.len() == 0 {
                Some(Err(e))
            } else {
                None
            },
            Ok(base) => install_outcome(base, skill_content, new),
        }
    }

    /// The instructions file is written in the target directory.
    open spec fn init_run(&self, target_dir: Seq<char>, new: Seq<FsEffect>) -> Option<Result<(), Seq<char>>> {
        init_outcome(join_text(target_dir, self.profile().instructions_file), new)
    }

    fn provider_name(&self) -> (r: &str) {
        self.profile.name.as_str()
    }

    fn install_skill(&mut self, target_dir: Option<&str>, skill_content: &str) -> (r: Result<(), AiProviderError>)
        ensures
            final(self).profile() == old(self).profile(),
            final(self).home_dir() == old(self).home_dir(),
    {
        let ghost e0 = self.fs.effects();
        assert(e0.take(e0.len() as int) =~= e0);
        assert(e0.skip(e0.len() as int) =~= Seq::<FsEffect>::empty());
        let base = match target_dir {
            Some(dir) => owned(dir),
            None => match &self.home {
                Some(h) => {
                    let config = join_path(h.as_str(), self.profile.config_dir.as_str());
                    join_path(config.as_str(), "skills")
                },
                None => {
                    return Err(AiProviderError { message: owned("Could not determine home directory") });
                },
            },
        };
        let dir = join_path(base.as_str(), "cabidl");
        let file = join_path(dir.as_str(), "SKILL.md");
        let created = self.fs.create_dir_all(dir.as_str());
        let ghost e1 = self.fs.effects();
        let ghost c = FsEffect::CreateDir { path: dir@, outcome: done_view(created) };
        assert(e1.take(e0.len() as int) =~= e0);
        assert(e1.skip(e0.len() as int) =~= seq![c]);
        match created {
            Err(e) => {
                return Err(
                    AiProviderError { message: fs_message("Failed to create directory '", dir.as_str(), &e) },
                );
            },
            Ok(_) => {},
        }
        let written = self.fs.write_string(file.as_str(), skill_content);
        proof {
            let e2 = self.fs.effects();
            let w = FsEffect::Write { path: file@, content: skill_content@, outcome: done_view(written) };
            assert(e2.take(e0.len() as int) =~= e0);
            assert(e2.skip(e0.len() as int) =~= seq![c, w]);
            assert(e2.skip(e0.len() as int).skip(1) =~= seq![w]);
        }
        match written {
            Err(e) => Err(
                AiProviderError { message: fs_message("Failed to write skill file '", file.as_str(), &e) },
            ),
            Ok(_) => Ok(()),
        }
    }

    fn init_project(&mut self, target_dir: &str) -> (r: Result<(), AiProviderError>)
        ensures
            final(self).profile() == old(self).profile(),
            final(self).home_dir() == old(self).home_dir(),
    {
        let ghost e0 = self.fs.effects();
        let file = join_path(target_dir, self.profile.instructions_file.as_str());
        let content = "* The specification for how this software is built is defined in cabidl/cabidl.md and it use /cabidl skill to understand how to build a project with cabidl specifications and that skill will use the cabidl cli that you have installed.\n";
        let written = self.fs.write_string(file.as_str(), content);
        proof {
            let e1 = self.fs.effects();
            assert(e1.take(e0.len() as int) =~= e0);
            assert(e1.skip(e0.len() as int) =~= seq![
                FsEffect::Write { path: file@, content: content@, outcome: done_view(written) },
            ]);
        }
        match written {
            Err(e) => Err(AiProviderError { message: fs_message("Failed to write '", file.as_str(), &e) }),
            Ok(_) => Ok(()),
        }
    }
}

} // verus!
