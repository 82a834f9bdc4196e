use vstd::prelude::*;

use crate::config::Config;
use crate::ir::nodes::Unit;
use crate::x86::assemble::{assemble as assemble_x86, assembles_decl};
use crate::x86::assembly::{file_text, File};

verus! {

/// The output of a backend for one unit.
pub struct TransUnit {
    pub source: String,
}

/// A backend: made from a configuration, it turns a unit into source text.
pub trait Builder<'a>: Sized {
    fn new(config: &'a Config) -> Self;

    fn assemble(self, unit: &Unit) -> Result<TransUnit, String>;
}

/// Translates a unit with the backend `B`.
pub fn assemble<'a, B: Builder<'a>>(config: &'a Config, unit: &Unit) -> (r: Result<TransUnit, String>) {
    B::new(config).assemble(unit)
}

/// The x86-64 backend: Intel syntax assembly for the GNU assembler.
pub struct X86Builder<'a> {
    config: &'a Config,
    src: String,
}

impl<'a> X86Builder<'a> {
    pub closed spec fn spec_config(&self) -> Config {
        *self.config
    }

    /// The text written so far.
    pub closed spec fn spec_source(&self) -> Seq<char> {
        self.src@
    }
}

impl<'a> Builder<'a> for X86Builder<'a> {
    fn new(config: &'a Config) -> (r: Self)
        ensures
            r.spec_config() == *config,
            r.spec_source() == Seq::<char>::empty(),
    {
        X86Builder { config, src: String::new() }
    }

    /// The unit's assembly file, after the text written so far.
    fn assemble(self, unit: &Unit) -> (r: Result<TransUnit, String>)
        ensures
            r matches Ok(t) ==> exists|f: File|
                #![trigger file_text(f)]
                t.source@ == self.spec_source() + file_text(f) && f.text_section@.len() == unit.decls@.len() && (
                forall|i: int| 0 <= i < unit.decls@.len() ==> assembles_decl(
                    #[trigger] unit.decls@[i],
                    f.text_section@[i],
                )),
    {
        let file = assemble_x86(unit, self.config)?;
        let mut src = self.src;
        let text = file.to_text();
        crate::common::text::push_str(&mut src, text.as_str());
        assert(src@ == self.spec_source() + file_text(file));
        Ok(TransUnit { source: src })
    }
}

} // verus!
