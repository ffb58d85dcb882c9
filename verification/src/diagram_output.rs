//! Drawing a diagram straight into a file: the provider of the requested
//! format draws the system in its default style, and the text is written
//! through a Filesystem.
use crate::diagram::{first_provider, unknown_diagram_type};
use crate::diagram_provider::{DiagramError, DiagramProvider};
use crate::filesystem::{effects_since, single_write, Filesystem, FsEffect};
use crate::model::{System, SystemView};
use crate::text::{owned, push_str, str_eq};
use vstd::prelude::*;

verus! {

pub open spec fn done_result(r: Result<(), DiagramError>) -> Result<(), Seq<char>> {
    match r {
        Ok(_) => Ok(()),
        Err(e) => Err(e.message@),
    }
}

/// The diagram orchestrator that writes the diagram to an output file.
pub struct DiagramImpl<F: Filesystem> {
    providers: Vec<Box<dyn DiagramProvider>>,
    fs: F,
}

/// What drawing into `output_file` gives, when `new` are the changes made
/// to the filesystem: an unknown format is refused and a failed drawing
/// reported, with nothing written; otherwise the first provider of the
/// format draws the system with no sub-type, and its text is written to
/// the file, once. `None` when `new` is not that.
pub open spec fn output_run(
    providers: Seq<Box<dyn DiagramProvider>>,
    system: SystemView,
    diagram_type: Seq<char>,
    output_file: Seq<char>,
    new: Seq<FsEffect>,
) -> Option<Result<(), Seq<char>>> {
    match first_provider(providers, diagram_type, 0) {
        None => if new.len() == 0 {
            Some(Err(unknown_diagram_type(diagram_type)))
        } else {
            None
        },
        Some(i) => match providers[i].generated(system, None) {
            Err(e) => if new.len() == 0 {
                Some(Err(e))
            } else {
                None
            },
            Ok(content) => match single_write(new, output_file, content) {
                None => None,
                Some(Err(e)) => Some(Err("Failed to write output file '"@ + output_file + "': "@ + e)),
                Some(Ok(_)) => Some(Ok(())),
            },
        },
    }
}

impl<F: Filesystem> DiagramImpl<F> {
    /// The providers, in the order in which they are tried.
    pub closed spec fn providers(&self) -> Seq<Box<dyn DiagramProvider>> {
        self.providers@
    }

    /// The filesystem the diagram is written through.
    pub closed spec fn filesystem(&self) -> F {
        self.fs
    }

    pub fn new(providers: Vec<Box<dyn DiagramProvider>>, fs: F) -> (d: Self)
        ensures
            d.providers() == providers@,
            d.filesystem() == fs,
    {
        DiagramImpl { providers, fs }
    }

    /// Draws the system in the requested format and writes it to
    /// `output_file`.
    pub fn generate(&mut self, system: &System, diagram_type: &str, output_file: &str) -> (r: Result<(), DiagramError>)
        ensures
            final(self).providers() == old(self).providers(),
            effects_since(old(self).filesystem().effects(), final(self).filesystem().effects()) matches Some(new)
                && output_run(old(self).providers(), system@, diagram_type@, output_file@, new) == Some(done_result(r)),
    {
        let ghost ps = self.providers@;
        let ghost e0 = self.fs.effects();
        assert(e0.skip(e0.len() as int) =~= Seq::<FsEffect>::empty());
        assert(e0.take(e0.len() as int) =~= e0);
        let mut i: usize = 0;
        while i < self.providers.len()
            invariant
                i <= ps.len(),
                ps == self.providers@,
                first_provider(ps, diagram_type@, i as int) == first_provider(ps, diagram_type@, 0),
                self.fs.effects() == e0,
                e0 == old(self).fs.effects(),
                ps == old(self).providers@,
                e0.skip(e0.len() as int) == Seq::<FsEffect>::empty(),
                e0.take(e0.len() as int) == e0,
            decreases ps.len() - i,
        {
            let p = &self.providers[i];
            if str_eq(p.diagram_type(), diagram_type) {
                let content = match p.generate(system, None) {
                    Ok(c) => c,
                    Err(e) => {
                        return Err(e);
                    },
                };
                let w = self.fs.write_string(output_file, content.as_str());
                proof {
                    let e1 = self.fs.effects();
                    assert(e1.take(e0.len() as int) =~= e0);
                    assert(e1.skip(e0.len() as int) =~= seq![
                        FsEffect::Write { path: output_file@, content: content@, outcome: crate::filesystem::done_view(w) },
                    ]);
                }
                return match w {
                    Ok(_) => Ok(()),
                    Err(e) => {
                        let mut m = owned("Failed to write output file '");
                        push_str(&mut m, output_file);
                        push_str(&mut m, "': ");
                        push_str(&mut m, e.message.as_str());
                        Err(DiagramError { message: m })
                    },
                };
            }
            i = i + 1;
        }
        let mut m = owned("Unknown diagram type: '");
        push_str(&mut m, diagram_type);
        push_str(&mut m, "'");
        Err(DiagramError { message: m })
    }
}

} // verus!
