use vstd::prelude::*;

use crate::common::names::NameMap;
use crate::sema::modpath::{ImportPath, ModulePath};
use crate::sema::symbols::{ModuleSymbol, ModuleSymbolKind, SymbolId, SymbolList};
use crate::sema::typed::TypedAst;

verus! {

pub type ModuleId = usize;

/// The id that no module has.
pub const INVALID_MOD_ID: ModuleId = usize::MAX;

/// A checked module: its symbols, and its sources when it was compiled here.
pub struct Module {
    pub id: ModuleId,
    pub kind: ModuleKind,
    pub modpath: ModulePath,
    pub symbols: SymbolList,
}

pub enum ModuleKind {
    Source { filepath: String, files: Vec<ModuleSourceFile> },
    External,
}

/// One checked source file of a module.
pub struct ModuleSourceFile {
    pub filename: String,
    pub ast: TypedAst,
    pub namespaces: NamespaceList,
}

/// The namespaces of every source file of the module are well formed.
pub open spec fn module_files_wf(kind: ModuleKind) -> bool {
    match kind {
        ModuleKind::Source { files, .. } => forall|j: int| 0 <= j < files@.len() ==> (#[trigger] files@[j]).namespaces.wf(),
        ModuleKind::External => true,
    }
}

/// The names a module exports, in the order they were declared.
pub open spec fn exported_names(names: Seq<Seq<char>>, syms: Map<Seq<char>, ModuleSymbol>) -> Seq<Seq<char>>
    decreases names.len(),
{
    if names.len() == 0 {
        Seq::empty()
    } else {
        let rest = exported_names(names.drop_last(), syms);
        if syms[names.last()].exported {
            rest.push(names.last())
        } else {
            rest
        }
    }
}

proof fn lemma_push_contains<A>(s: Seq<A>, a: A, k: A)
    ensures
        s.push(a).contains(k) <==> (s.contains(k) || a == k),
{
    if s.contains(k) {
        let j = choose|j: int| 0 <= j < s.len() && s[j] == k;
        assert(s.push(a)[j] == k);
    }
    if a == k {
        assert(s.push(a)[s.len() as int] == k);
    }
    if s.push(a).contains(k) {
        let j = choose|j: int| 0 <= j < s.push(a).len() && s.push(a)[j] == k;
        if j < s.len() {
            assert(s[j] == k);
        }
    }
}

/// Every exported name is one of the names.
pub proof fn lemma_exported_names(names: Seq<Seq<char>>, syms: Map<Seq<char>, ModuleSymbol>, k: Seq<char>)
    ensures
        exported_names(names, syms).contains(k) <==> (names.contains(k) && syms[k].exported),
    decreases names.len(),
{
    if names.len() > 0 {
        lemma_exported_names(names.drop_last(), syms, k);
        assert(names =~= names.drop_last().push(names.last()));
        lemma_push_contains(names.drop_last(), names.last(), k);
        lemma_push_contains(exported_names(names.drop_last(), syms), names.last(), k);
    }
}

/// The symbols a module imported, in the order they were declared.
pub open spec fn imported_ids(names: Seq<Seq<char>>, syms: Map<Seq<char>, ModuleSymbol>) -> Seq<SymbolId>
    decreases names.len(),
{
    if names.len() == 0 {
        Seq::empty()
    } else {
        let rest = imported_ids(names.drop_last(), syms);
        if syms[names.last()].kind == ModuleSymbolKind::Imported {
            rest.push(syms[names.last()].id)
        } else {
            rest
        }
    }
}

/// `r` lists the exported names of `names`, each with its symbol id.
pub open spec fn lists_exports(r: Seq<(String, SymbolId)>, names: Seq<Seq<char>>, syms: Map<Seq<char>, ModuleSymbol>) -> bool {
    &&& r.len() == exported_names(names, syms).len()
    &&& forall|i: int| 0 <= i < r.len() ==> (#[trigger] r[i]).0@ == exported_names(names, syms)[i]
        && syms.contains_key(exported_names(names, syms)[i])
        && r[i].1 == syms[exported_names(names, syms)[i]].id
}

impl Module {
    pub fn name(&self) -> (r: &str)
        ensures
            r@ == self.modpath@,
    {
        self.modpath.path()
    }

    pub fn is_main(&self) -> (r: bool)
        ensures
            r == (self.modpath@ == "main"@),
    {
        self.modpath.is_main()
    }

    /// Only modules compiled from source are built.
    pub fn should_be_built(&self) -> (r: bool)
        ensures
            r == (self.kind is Source),
    {
        match self.kind {
            ModuleKind::Source { .. } => true,
            ModuleKind::External => false,
        }
    }

    /// The exported symbols, by name, in the order they were declared.
    pub fn exports(&self) -> (r: Vec<(String, SymbolId)>)
        requires
            self.symbols.wf(),
        ensures
            lists_exports(r@, self.symbols.names(), self.symbols@),
    {
        let list = self.symbols.symbols();
        proof {
            list.lemma_wf();
        }
        let n = list.len();
        let mut r: Vec<(String, SymbolId)> = Vec::new();
        let mut i: usize = 0;
        while i < n
            invariant
                list.wf(),
                list@ == self.symbols@,
                list.names() == self.symbols.names(),
                n == list.names().len(),
                i <= n,
                lists_exports(r@, list.names().take(i as int), list@),
            decreases n - i,
        {
            proof {
                list.lemma_wf();
            }
            let (name, sym) = list.at(i);
            let ghost names = list.names();
            assert(names.take(i + 1).drop_last() =~= names.take(i as int));
            assert(names.take(i + 1).last() == names[i as int]);
            assert(list@.contains_key(names[i as int]));
            if sym.exported {
                let ghost ex0 = exported_names(names.take(i as int), list@);
                assert(exported_names(names.take(i + 1), list@) == ex0.push(names[i as int]));
                let ghost r0 = r@;
                r.push((name.clone(), sym.id));
                assert forall|k: int| 0 <= k < r@.len() implies (#[trigger] r@[k]).0@ == ex0.push(names[i as int])[k]
                    && list@.contains_key(ex0.push(names[i as int])[k])
                    && r@[k].1 == list@[ex0.push(names[i as int])[k]].id by {
                    if k < r0.len() {
                        assert(r@[k] == r0[k]);
                        assert(ex0.push(names[i as int])[k] == ex0[k]);
                    }
                }
            } else {
                assert(exported_names(names.take(i + 1), list@) == exported_names(names.take(i as int), list@));
            }
            i = i + 1;
        }
        assert(list.names().take(n as int) =~= list.names());
        assert(exported_names(list.names().take(i as int), list@) == exported_names(self.symbols.names(), self.symbols@));
        r
    }

    /// The ids of the symbols the module imported.
    pub fn imports(&self) -> (r: Vec<SymbolId>)
        requires
            self.symbols.wf(),
        ensures
            r@ == imported_ids(self.symbols.names(), self.symbols@),
    {
        let list = self.symbols.symbols();
        let n = list.len();
        let mut r: Vec<SymbolId> = Vec::new();
        let mut i: usize = 0;
        while i < n
            invariant
                list.wf(),
                list@ == self.symbols@,
                list.names() == self.symbols.names(),
                n == list.names().len(),
                i <= n,
                r@ == imported_ids(list.names().take(i as int), list@),
            decreases n - i,
        {
            proof {
                list.lemma_wf();
            }
            let (_, sym) = list.at(i);
            let ghost names = list.names();
            assert(names.take(i + 1).drop_last() =~= names.take(i as int));
            assert(names.take(i + 1).last() == names[i as int]);
            assert(list@.contains_key(names[i as int]));
            if sym.kind == ModuleSymbolKind::Imported {
                r.push(sym.id);
            }
            i = i + 1;
        }
        assert(list.names().take(n as int) =~= list.names());
        r
    }
}

/// The exported symbols of a module, under the name it was imported as.
pub struct Namespace {
    name: String,
    modpath: ModulePath,
    symbols: NameMap<SymbolId>,
}

impl Namespace {
    pub closed spec fn spec_name(&self) -> Seq<char> {
        self.name@
    }

    /// The symbols, by name.
    pub closed spec fn view(&self) -> Map<Seq<char>, SymbolId> {
        self.symbols@
    }

    pub closed spec fn wf(&self) -> bool {
        self.symbols.wf()
    }

    /// The namespace `name` of the exports of `module`.
    pub fn new(name: String, module: &Module) -> (r: Self)
        requires
            module.symbols.wf(),
        ensures
            r.wf(),
            r.spec_name() == name@,
            forall|k: Seq<char>| #[trigger] r@.contains_key(k) <==> (module.symbols@.contains_key(k)
                && module.symbols@[k].exported),
            forall|k: Seq<char>| #[trigger] r@.contains_key(k) ==> r@[k] == module.symbols@[k].id,
    {
        let exports = module.exports();
        let ghost names = module.symbols.names();
        let ghost syms = module.symbols@;
        let ghost ex = exported_names(names, syms);
        let mut symbols: NameMap<SymbolId> = NameMap::new();
        let mut i: usize = 0;
        while i < exports.len()
            invariant
                i <= exports@.len(),
                lists_exports(exports@, names, syms),
                ex == exported_names(names, syms),
                symbols.wf(),
                forall|k: Seq<char>| #[trigger] symbols@.contains_key(k) <==> ex.take(i as int).contains(k),
                forall|k: Seq<char>| #[trigger] symbols@.contains_key(k) ==> symbols@[k] == syms[k].id,
            decreases exports.len() - i,
        {
            let entry = &exports[i];
            assert(entry.0@ == ex[i as int] && entry.1 == syms[ex[i as int]].id);
            let _ = symbols.insert(entry.0.clone(), entry.1);
            assert(ex.take(i + 1) =~= ex.take(i as int).push(ex[i as int]));
            assert forall|k: Seq<char>| #[trigger] symbols@.contains_key(k) <==> ex.take(i + 1).contains(k) by {
                lemma_push_contains(ex.take(i as int), ex[i as int], k);
            }
            i = i + 1;
        }
        assert(ex.take(exports@.len() as int) =~= ex);
        let list = module.symbols.symbols();
        proof {
            assert forall|k: Seq<char>| #[trigger] symbols@.contains_key(k) <==> (syms.contains_key(k)
                && syms[k].exported) by {
                list.lemma_wf();
                lemma_exported_names(names, syms, k);
            }
        }
        Namespace { name, modpath: module.modpath.clone(), symbols }
    }

    pub fn name(&self) -> (r: &str)
        ensures
            r@ == self.spec_name(),
    {
        self.name.as_str()
    }

    /// The module the namespace stands for.
    pub closed spec fn spec_modpath(&self) -> ModulePath {
        self.modpath
    }

    pub fn modpath(&self) -> (r: &ModulePath)
        ensures
            *r == self.spec_modpath(),
    {
        &self.modpath
    }

    pub fn get(&self, name: &str) -> (r: Option<SymbolId>)
        requires
            self.wf(),
        ensures
            r == (if self@.contains_key(name@) { Some(self@[name@]) } else { None::<SymbolId> }),
    {
        match self.symbols.get(name) {
            Some(id) => Some(*id),
            None => None,
        }
    }
}

/// The namespaces a source file imported, by name.
pub struct NamespaceList {
    ns: NameMap<Namespace>,
}

impl NamespaceList {
    pub closed spec fn view(&self) -> Map<Seq<char>, Namespace> {
        self.ns@
    }

    pub closed spec fn wf(&self) -> bool {
        &&& self.ns.wf()
        &&& forall|k: Seq<char>| #[trigger] self.ns@.contains_key(k) ==> self.ns@[k].wf()
    }

    pub fn new() -> (r: Self)
        ensures
            r.wf(),
            r@ == Map::<Seq<char>, Namespace>::empty(),
    {
        NamespaceList { ns: NameMap::new() }
    }

    /// Adds a namespace under its own name. When the name was taken, the new
    /// namespace replaces it and the result is the error "duplicate namespace '..'".
    pub fn add(&mut self, ns: Namespace) -> (r: Result<(), String>)
        requires
            old(self).wf(),
            ns.wf(),
        ensures
            final(self).wf(),
            final(self)@ == old(self)@.insert(ns.spec_name(), ns),
            r is Ok <==> !old(self)@.contains_key(ns.spec_name()),
            r matches Err(e) ==> e@ == "duplicate namespace '"@ + ns.spec_name() + "'"@,
    {
        let key = ns.name.clone();
        let shown = ns.name.clone();
        match self.ns.insert(key, ns) {
            None => Ok(()),
            Some(_) => {
                let mut e = String::from_str("duplicate namespace '");
                crate::common::text::push_str(&mut e, shown.as_str());
                crate::common::text::push_str(&mut e, "'");
                Err(e)
            },
        }
    }

    pub fn get(&self, name: &str) -> (r: Result<&Namespace, String>)
        requires
            self.wf(),
        ensures
            r matches Ok(ns) ==> self@.contains_key(name@) && *ns == self@[name@] && ns.wf(),
            r matches Err(e) ==> !self@.contains_key(name@) && e@ == "not declared"@,
    {
        match self.ns.get(name) {
            Some(ns) => Ok(ns),
            None => Err(String::from_str("not declared")),
        }
    }
}

/// What is needed to add a module; the interner gives it its id.
pub struct CreateModule {
    pub modpath: ModulePath,
    pub kind: ModuleKind,
    pub symbols: SymbolList,
}

/// All modules of the program, numbered in the order they were added, and
/// found again by path.
pub struct ModuleInterner {
    modules: Vec<Module>,
    cache: NameMap<ModuleId>,
    main_id: Option<ModuleId>,
}

/// The key a module is found by: its path when compiled from source, else
/// the path it is imported by.
pub open spec fn module_key(m: CreateModule) -> Seq<char> {
    if m.kind is Source { m.modpath@ } else { m.modpath.spec_import() }
}

impl ModuleInterner {
    pub closed spec fn view(&self) -> Seq<Module> {
        self.modules@
    }

    /// The id each key leads to.
    pub closed spec fn keys(&self) -> Map<Seq<char>, ModuleId> {
        self.cache@
    }

    pub closed spec fn spec_main(&self) -> Option<ModuleId> {
        self.main_id
    }

    pub closed spec fn wf(&self) -> bool {
        &&& self.cache.wf()
        &&& forall|i: int| 0 <= i < self.modules@.len() ==> (#[trigger] self.modules@[i]).id == i
        &&& forall|k: Seq<char>| #[trigger] self.cache@.contains_key(k) ==> self.cache@[k] < self.modules@.len()
        &&& (self.main_id matches Some(m) ==> m < self.modules@.len())
    }

    pub fn new() -> (r: Self)
        ensures
            r.wf(),
            r@ == Seq::<Module>::empty(),
            r.keys() == Map::<Seq<char>, ModuleId>::empty(),
            r.spec_main() is None,
    {
        ModuleInterner { modules: Vec::new(), cache: NameMap::new(), main_id: None }
    }

    /// Adds a module and returns its id, the number of modules before it.
    pub fn add(&mut self, m: CreateModule) -> (id: ModuleId)
        requires
            old(self).wf(),
        ensures
            final(self).wf(),
            id == old(self)@.len(),
            final(self)@.len() == old(self)@.len() + 1,
            final(self)@.take(id as int) == old(self)@,
            final(self)@[id as int].id == id,
            final(self)@[id as int].modpath == m.modpath,
            final(self)@[id as int].symbols == m.symbols,
            final(self)@[id as int].kind == m.kind,
            final(self).keys() == old(self).keys().insert(module_key(m), id),
            final(self).spec_main() == (if m.modpath@ == "main"@ { Some(id) } else { old(self).spec_main() }),
    {
        let id = self.modules.len();
        let key = match &m.kind {
            ModuleKind::Source { .. } => String::from_str(m.modpath.path()),
            ModuleKind::External => String::from_str(m.modpath.import_path()),
        };
        if m.modpath.is_main() {
            self.main_id = Some(id);
        }
        let _ = self.cache.insert(key, id);
        self.modules.push(Module { id, modpath: m.modpath, symbols: m.symbols, kind: m.kind });
        assert(self@.take(id as int) =~= old(self)@);
        id
    }

    /// The module with id `id`.
    pub fn get(&self, id: ModuleId) -> (r: &Module)
        requires
            self.wf(),
            id < self@.len(),
        ensures
            *r == self@[id as int],
            r.id == id,
    {
        &self.modules[id]
    }

    pub fn try_get(&self, id: ModuleId) -> (r: Option<&Module>)
        requires
            self.wf(),
        ensures
            r matches Some(m) ==> id < self@.len() && *m == self@[id as int] && m.id == id,
            r is None ==> id >= self@.len(),
    {
        if id < self.modules.len() {
            Some(&self.modules[id])
        } else {
            None
        }
    }

    /// The module an import path names, or the error
    /// "could not resolve module import".
    pub fn resolve(&self, impath: &ImportPath) -> (r: Result<&Module, String>)
        requires
            self.wf(),
        ensures
            r matches Ok(m) ==> self.keys().contains_key(impath@) && self.keys()[impath@] < self@.len()
                && *m == self@[self.keys()[impath@] as int],
            r matches Err(e) ==> !self.keys().contains_key(impath@) && e@ == "could not resolve module import"@,
    {
        match self.cache.get(impath.path()) {
            Some(id) => Ok(&self.modules[*id]),
            None => Err(String::from_str("could not resolve module import")),
        }
    }

    /// Resolving finds the module added last under a key: once `add(m)` has
    /// given `id`, the key of `m` leads to the module `id`, whatever was added
    /// under that key before.
    pub proof fn law_resolve_finds_latest(before: &Self, after: &Self, m: CreateModule, id: ModuleId)
        requires
            before.wf(),
            after.wf(),
            id == before@.len(),
            after@.len() == before@.len() + 1,
            after@[id as int].modpath == m.modpath,
            after.keys() == before.keys().insert(module_key(m), id),
        ensures
            after.keys().contains_key(module_key(m)),
            after.keys()[module_key(m)] == id,
            after@[after.keys()[module_key(m)] as int].id == id,
            after@[after.keys()[module_key(m)] as int].modpath == m.modpath,
    {
    }

    /// The main module, if one was added.
    pub fn main(&self) -> (r: Option<&Module>)
        requires
            self.wf(),
        ensures
            r matches Some(m) ==> self.spec_main() matches Some(id) && *m == self@[id as int],
            r is None ==> self.spec_main() is None,
    {
        match self.main_id {
            Some(id) => Some(&self.modules[id]),
            None => None,
        }
    }

    pub fn modules(&self) -> (r: &[Module])
        ensures
            r@ == self@,
    {
        self.modules.as_slice()
    }
}

} // verus!
