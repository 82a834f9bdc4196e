use vstd::prelude::*;

use crate::config::Config;
use crate::sema::module::ModuleInterner;
use crate::sema::symbols::SymbolInterner;
use crate::sema::type_interner::TypeInterner;

verus! {

/// Everything the compiler knows of the program: its types, modules and
/// symbols, and the configuration it runs with.
pub struct Context {
    pub types: TypeInterner,
    pub modules: ModuleInterner,
    pub symbols: SymbolInterner,
    pub config: Config,
}

impl Context {
    /// The interners are well formed and every symbol's type exists.
    pub open spec fn wf(&self) -> bool {
        &&& self.types.wf()
        &&& self.modules.wf()
        &&& self.symbols.wf()
        &&& forall|i: int| 0 <= i < self.symbols@.len() ==> (#[trigger] self.symbols@[i]).ty
            < self.types.kinds().len()
        &&& forall|i: int| 0 <= i < self.modules@.len() ==> (#[trigger] self.modules@[i]).symbols.wf()
            && forall|k: Seq<char>| #[trigger] self.modules@[i].symbols@.contains_key(k)
                ==> self.modules@[i].symbols@[k].id < self.symbols@.len()
        &&& forall|i: int| 0 <= i < self.modules@.len() ==> crate::sema::module::module_files_wf(
            #[trigger] self.modules@[i].kind,
        )
    }

    /// A context with the primitive types and nothing else.
    pub fn new(config: Config) -> (r: Self)
        ensures
            r.wf(),
            r.config == config,
            r.types.kinds().len() == crate::sema::types::NUM_PRIMITIVES,
            r.modules@.len() == 0,
            r.symbols@.len() == 0,
    {
        Context {
            types: TypeInterner::new(),
            modules: ModuleInterner::new(),
            symbols: SymbolInterner::new(),
            config,
        }
    }
}

} // verus!
