use vstd::prelude::*;

use crate::common::names::NameMap;
use crate::common::source::Pos;
use crate::common::text::{decimal, push_char, push_str, push_u64};
use crate::sema::modpath::ModulePath;
use crate::sema::types::TypeId;

verus! {

pub type SymbolId = usize;

/// The id that no symbol has.
pub const INVALID_SYMBOL_ID: SymbolId = usize::MAX;

/// After a name is added to a symbol list, looking it up gives the symbol
/// added, and every other name keeps its symbol.
pub proof fn law_add_then_get(
    before: Map<Seq<char>, ModuleSymbol>,
    after: Map<Seq<char>, ModuleSymbol>,
    name: Seq<char>,
    sym: ModuleSymbol,
)
    requires
        after == before.insert(name, sym),
    ensures
        after.contains_key(name) && after[name] == sym,
        forall|k: Seq<char>| k != name ==> (after.contains_key(k) == before.contains_key(k)),
        forall|k: Seq<char>| k != name && before.contains_key(k) ==> after[k] == before[k],
{
}

/// What a symbol names.
#[derive(Debug, Clone, Copy, PartialEq, Eq, Structural)]
pub enum SymbolKind {
    Function { is_inline: bool, is_naked: bool },
    Type,
}

/// Where a symbol was declared.
#[derive(Debug, Clone)]
pub enum SymbolOrigin {
    Intrinsic,
    Module { modpath: ModulePath, pos: Pos, filename: String },
    Library(ModulePath),
    Extern,
}

/// A named function or type, known to the whole program.
#[derive(Debug, Clone)]
pub struct Symbol {
    pub id: SymbolId,
    pub name: String,
    pub alias: Option<String>,
    pub kind: SymbolKind,
    pub ty: TypeId,
    pub origin: SymbolOrigin,
    pub is_exported: bool,
    pub no_mangle: bool,
}

/// What is needed to add a symbol; the interner gives it its id.
#[derive(Debug)]
pub struct CreateSymbol {
    pub name: String,
    pub alias: Option<String>,
    pub kind: SymbolKind,
    pub ty: TypeId,
    pub origin: SymbolOrigin,
    pub is_exported: bool,
    pub no_mangle: bool,
}

impl SymbolKind {
    pub fn name(&self) -> (r: &'static str)
        ensures
            r@ == (if *self is Type { "type"@ } else { "function"@ }),
    {
        match self {
            SymbolKind::Function { .. } => "function",
            SymbolKind::Type => "type",
        }
    }
}

/// The written form of an origin.
pub open spec fn origin_text(o: SymbolOrigin) -> Seq<char> {
    match o {
        SymbolOrigin::Module { modpath, .. } => "module("@ + modpath@ + ")"@,
        SymbolOrigin::Extern => "extern"@,
        SymbolOrigin::Library(m) => "library("@ + m@ + ")"@,
        SymbolOrigin::Intrinsic => "intrinsic"@,
    }
}

/// The properties of a symbol, in order: exported, mangled, extern, and
/// inline, naked or type.
pub open spec fn symbol_props(sym: Symbol) -> Seq<Seq<char>> {
    (if sym.is_exported { seq!["exported"@] } else { Seq::empty() }) + (if !sym.no_mangle {
        seq!["mangled"@]
    } else {
        Seq::empty()
    }) + (if sym.origin is Extern { seq!["extern"@] } else { Seq::empty() }) + match sym.kind {
        SymbolKind::Function { is_inline, is_naked } => (if is_inline { seq!["inline"@] } else { Seq::empty() }) + (
        if is_naked {
            seq!["naked"@]
        } else {
            Seq::empty()
        }),
        SymbolKind::Type => seq!["type"@],
    }
}

/// The words, separated by spaces.
pub open spec fn join_spaces(words: Seq<Seq<char>>) -> Seq<char>
    decreases words.len(),
{
    if words.len() == 0 {
        Seq::empty()
    } else if words.len() == 1 {
        words[0]
    } else {
        join_spaces(words.drop_last()) + " "@ + words.last()
    }
}

/// The written form of a symbol, for dumps.
pub open spec fn symbol_text(sym: Symbol) -> Seq<char> {
    "["@ + (if sym.kind is Type { "type"@ } else { "function"@ }) + " "@ + sym.name@ + " origin="@ + origin_text(
        sym.origin,
    ) + " typeid="@ + decimal(sym.ty as nat) + " "@ + join_spaces(symbol_props(sym)) + "]"@
}

/// One more word: the words joined gain a space and the word, or just the
/// word when it is the first.
proof fn lemma_join_push(words: Seq<Seq<char>>, w: Seq<char>)
    ensures
        join_spaces(words.push(w)) == join_spaces(words) + if words.len() == 0 { w } else { " "@ + w },
{
    assert(words.push(w).drop_last() =~= words);
    if words.len() == 0 {
        assert(words.push(w)[0] == w);
        assert(join_spaces(words) =~= Seq::<char>::empty());
        assert(join_spaces(words.push(w)) =~= join_spaces(words) + w);
    } else {
        assert(join_spaces(words.push(w)) =~= join_spaces(words) + " "@ + w);
    }
}

/// Appends a word, after a space unless it is the first.
fn push_word(s: &mut String, first: bool, w: &str)
    ensures
        final(s)@ == old(s)@ + if first { w@ } else { " "@ + w@ },
{
    if !first {
        push_str(s, " ");
    }
    push_str(s, w);
    assert(s@ =~= old(s)@ + if first { w@ } else { " "@ + w@ });
}

impl SymbolOrigin {
    /// The written form of an origin, for dumps.
    pub fn to_text(&self) -> (r: String)
        ensures
            r@ == origin_text(*self),
    {
        let mut s = String::new();
        match self {
            SymbolOrigin::Module { modpath, .. } => {
                push_str(&mut s, "module(");
                push_str(&mut s, modpath.path());
                push_str(&mut s, ")");
            },
            SymbolOrigin::Extern => push_str(&mut s, "extern"),
            SymbolOrigin::Library(modpath) => {
                push_str(&mut s, "library(");
                push_str(&mut s, modpath.path());
                push_str(&mut s, ")");
            },
            SymbolOrigin::Intrinsic => push_str(&mut s, "intrinsic"),
        }
        assert(s@ =~= origin_text(*self));
        s
    }
}

impl Symbol {
    /// Was the symbol declared by an `extern` declaration?
    pub fn is_extern(&self) -> (r: bool)
        ensures
            r == (self.origin is Extern),
    {
        match self.origin {
            SymbolOrigin::Extern => true,
            _ => false,
        }
    }

    /// The written form of a symbol, for dumps: its kind, name, origin, type id
    /// and the list of its properties.
    pub fn to_text(&self) -> (r: String)
        ensures
            r@ == symbol_text(*self),
    {
        let mut s = String::new();
        push_str(&mut s, "[");
        push_str(&mut s, self.kind.name());
        push_str(&mut s, " ");
        push_str(&mut s, self.name.as_str());
        push_str(&mut s, " origin=");
        let o = self.origin.to_text();
        push_str(&mut s, o.as_str());
        push_str(&mut s, " typeid=");
        push_u64(&mut s, self.ty as u64);
        push_str(&mut s, " ");
        self.push_props(&mut s);
        push_str(&mut s, "]");
        assert(s@ =~= symbol_text(*self));
        s
    }

    /// Appends the properties, separated by spaces.
    #[verifier::rlimit(100)]
    #[verifier::spinoff_prover]
    fn push_props(&self, s: &mut String)
        ensures
            final(s)@ == old(s)@ + join_spaces(symbol_props(*self)),
    {
        let ghost head = s@;
        let ghost mut words: Seq<Seq<char>> = Seq::empty();
        let mut first = true;
        if self.is_exported {
            push_word(s, first, "exported");
            proof {
                lemma_join_push(words, "exported"@);
                words = words.push("exported"@);
            }
            first = false;
        }
        assert(s@ == head + join_spaces(words) && first == (words.len() == 0));
        if !self.no_mangle {
            push_word(s, first, "mangled");
            proof {
                lemma_join_push(words, "mangled"@);
                words = words.push("mangled"@);
            }
            first = false;
        }
        assert(s@ == head + join_spaces(words) && first == (words.len() == 0));
        if self.is_extern() {
            push_word(s, first, "extern");
            proof {
                lemma_join_push(words, "extern"@);
                words = words.push("extern"@);
            }
            first = false;
        }
        assert(s@ == head + join_spaces(words) && first == (words.len() == 0));
        let ghost w3 = words;
        assert(w3 =~= (if self.is_exported { seq!["exported"@] } else { Seq::empty() }) + (if !self.no_mangle {
            seq!["mangled"@]
        } else {
            Seq::empty()
        }) + (if self.origin is Extern { seq!["extern"@] } else { Seq::empty() }));
        match self.kind {
            SymbolKind::Function { is_inline, is_naked } => {
                if is_inline {
                    push_word(s, first, "inline");
                    proof {
                        lemma_join_push(words, "inline"@);
                        words = words.push("inline"@);
                    }
                    first = false;
                }
                assert(s@ == head + join_spaces(words) && first == (words.len() == 0));
                if is_naked {
                    push_word(s, first, "naked");
                    proof {
                        lemma_join_push(words, "naked"@);
                        words = words.push("naked"@);
                    }
                }
                assert(words =~= w3 + (if is_inline { seq!["inline"@] } else { Seq::empty() }) + (if is_naked {
                    seq!["naked"@]
                } else {
                    Seq::empty()
                }));
            },
            SymbolKind::Type => {
                push_word(s, first, "type");
                proof {
                    lemma_join_push(words, "type"@);
                    words = words.push("type"@);
                }
                assert(words =~= w3 + seq!["type"@]);
            },
        }
        assert(words =~= symbol_props(*self));
    }
}

/// `n` spaces.
pub open spec fn spaces(n: nat) -> Seq<char> {
    Seq::new(n, |i: int| ' ')
}

/// `name` padded with spaces to at least `width` characters.
pub open spec fn padded(name: Seq<char>, width: usize) -> Seq<char> {
    name + spaces(if width > name.len() { (width - name.len()) as nat } else { 0 })
}

/// Appends `name` padded with spaces to at least `width` characters.
fn push_padded(s: &mut String, name: &str, width: usize)
    ensures
        final(s)@ == old(s)@ + padded(name@, width),
{
    push_str(s, name);
    let ghost base = old(s)@ + name@;
    let n = name.unicode_len();
    let mut i = n;
    while i < width
        invariant
            n == name@.len(),
            n <= i,
            i <= width || i == n,
            s@ == base + spaces((i - n) as nat),
        decreases width - i,
    {
        push_char(s, ' ');
        assert(s@ =~= base + spaces((i + 1 - n) as nat));
        i = i + 1;
    }
    assert(s@ =~= old(s)@ + padded(name@, width));
}

/// One line of the table of all symbols.
pub open spec fn symbol_line(sym: Symbol) -> Seq<char> {
    "| "@ + padded(sym.name@, 20) + " "@ + symbol_text(sym) + "\n"@
}

/// The lines of the table of all symbols.
pub open spec fn symbol_lines(syms: Seq<Symbol>) -> Seq<char>
    decreases syms.len(),
{
    if syms.len() == 0 {
        Seq::empty()
    } else {
        symbol_lines(syms.drop_last()) + symbol_line(syms.last())
    }
}

/// One line of a module's table: the name, padded, and the symbol it is
/// bound to, when there is one.
pub open spec fn entry_line(e: (Seq<char>, ModuleSymbol), table: Seq<Symbol>) -> Seq<char> {
    padded(e.0, 20) + (if e.1.id < table.len() { symbol_text(table[e.1.id as int]) } else { Seq::empty() }) + "\n"@
}

/// The first `n` lines of a module's table.
pub open spec fn list_lines(list: SymbolList, table: Seq<Symbol>, n: nat) -> Seq<char>
    decreases n,
{
    if n == 0 {
        Seq::empty()
    } else {
        list_lines(list, table, (n - 1) as nat) + entry_line(list.entry(n - 1), table)
    }
}

/// All symbols of the program, numbered in the order they were added.
pub struct SymbolInterner {
    symbols: Vec<Symbol>,
}

impl SymbolInterner {
    pub closed spec fn view(&self) -> Seq<Symbol> {
        self.symbols@
    }

    /// Each symbol's id is its position.
    pub open spec fn wf(&self) -> bool {
        forall|i: int| 0 <= i < self@.len() ==> (#[trigger] self@[i]).id == i
    }

    pub fn new() -> (r: Self)
        ensures
            r@ == Seq::<Symbol>::empty(),
            r.wf(),
    {
        SymbolInterner { symbols: Vec::new() }
    }

    /// Adds a symbol and returns its id, the number of symbols before it.
    pub fn add(&mut self, symbol: CreateSymbol) -> (id: SymbolId)
        requires
            old(self).wf(),
        ensures
            final(self).wf(),
            id == old(self)@.len(),
            final(self)@.len() == old(self)@.len() + 1,
            final(self)@.take(id as int) == old(self)@,
            final(self)@[id as int].id == id,
            final(self)@[id as int].name == symbol.name,
            final(self)@[id as int].alias == symbol.alias,
            final(self)@[id as int].kind == symbol.kind,
            final(self)@[id as int].ty == symbol.ty,
            final(self)@[id as int].origin == symbol.origin,
            final(self)@[id as int].is_exported == symbol.is_exported,
            final(self)@[id as int].no_mangle == symbol.no_mangle,
    {
        let id = self.symbols.len();
        let symbol = Symbol {
            id,
            kind: symbol.kind,
            ty: symbol.ty,
            name: symbol.name,
            alias: symbol.alias,
            origin: symbol.origin,
            is_exported: symbol.is_exported,
            no_mangle: symbol.no_mangle,
        };
        self.symbols.push(symbol);
        assert(self@.take(id as int) =~= old(self)@);
        id
    }

    pub fn get(&self, id: SymbolId) -> (r: &Symbol)
        requires
            id < self@.len(),
        ensures
            *r == self@[id as int],
    {
        &self.symbols[id]
    }

    pub fn try_get(&self, id: SymbolId) -> (r: Option<&Symbol>)
        ensures
            r matches Some(s) ==> id < self@.len() && *s == self@[id as int],
            r is None ==> id >= self@.len(),
    {
        if id < self.symbols.len() {
            Some(&self.symbols[id])
        } else {
            None
        }
    }

    pub fn symbols(&self) -> (r: &[Symbol])
        ensures
            r@ == self@,
    {
        self.symbols.as_slice()
    }

    /// A table of all symbols, one line each.
    pub fn dump(&self, module: &str) -> (s: String)
        ensures
            s@ == "| Symbols in "@ + module@ + "\n"@ + "| ----------------------\n"@ + symbol_lines(self@),
    {
        let mut s = String::new();
        push_str(&mut s, "| Symbols in ");
        push_str(&mut s, module);
        push_str(&mut s, "\n");
        push_str(&mut s, "| ----------------------\n");
        let ghost head = s@;
        let mut i: usize = 0;
        while i < self.symbols.len()
            invariant
                i <= self@.len(),
                s@ == head + symbol_lines(self@.take(i as int)),
            decreases self.symbols.len() - i,
        {
            push_str(&mut s, "| ");
            push_padded(&mut s, self.symbols[i].name.as_str(), 20);
            push_str(&mut s, " ");
            let t = self.symbols[i].to_text();
            push_str(&mut s, t.as_str());
            push_str(&mut s, "\n");
            proof {
                let tk = self@.take(i + 1);
                assert(tk.drop_last() =~= self@.take(i as int));
                assert(tk.last() == self@[i as int]);
                assert(s@ =~= head + symbol_lines(tk));
            }
            i = i + 1;
        }
        assert(self@.take(self@.len() as int) =~= self@);
        assert(s@ =~= "| Symbols in "@ + module@ + "\n"@ + "| ----------------------\n"@ + symbol_lines(self@));
        s
    }
}

/// How a module came to have a symbol.
#[derive(Debug, Clone, Copy, PartialEq, Eq, Structural)]
pub enum ModuleSymbolKind {
    Module,
    Imported,
}

/// A symbol as a module sees it.
#[derive(Debug, Clone, Copy, PartialEq, Eq, Structural)]
pub struct ModuleSymbol {
    pub id: SymbolId,
    pub kind: ModuleSymbolKind,
    pub exported: bool,
}

/// The symbols a module can name, and the aliases of its extern declarations.
pub struct SymbolList {
    aliases: NameMap<String>,
    symbols: NameMap<ModuleSymbol>,
}

impl SymbolList {
    pub closed spec fn view(&self) -> Map<Seq<char>, ModuleSymbol> {
        self.symbols@
    }

    pub closed spec fn spec_aliases(&self) -> Map<Seq<char>, String> {
        self.aliases@
    }

    /// The names, in the order they were first added.
    pub closed spec fn names(&self) -> Seq<Seq<char>> {
        self.symbols.names()
    }

    pub closed spec fn wf(&self) -> bool {
        self.aliases.wf() && self.symbols.wf()
    }

    pub fn new() -> (r: Self)
        ensures
            r.wf(),
            r@ == Map::<Seq<char>, ModuleSymbol>::empty(),
            r.spec_aliases() == Map::<Seq<char>, String>::empty(),
            r.names() == Seq::<Seq<char>>::empty(),
    {
        SymbolList { aliases: NameMap::new(), symbols: NameMap::new() }
    }

    /// Binds `name` to `symbol`. When the name was already bound, the new
    /// binding replaces it and the result is the error "already declared".
    pub fn add(&mut self, name: String, symbol: ModuleSymbol) -> (r: Result<(), String>)
        requires
            old(self).wf(),
        ensures
            final(self).wf(),
            final(self)@ == old(self)@.insert(name@, symbol),
            final(self).spec_aliases() == old(self).spec_aliases(),
            r is Ok <==> !old(self)@.contains_key(name@),
            r matches Err(e) ==> e@ == "already declared"@,
            !old(self)@.contains_key(name@) ==> final(self).names() == old(self).names().push(name@),
            old(self)@.contains_key(name@) ==> final(self).names() == old(self).names(),
    {
        match self.symbols.insert(name, symbol) {
            None => Ok(()),
            Some(_) => Err(String::from_str("already declared")),
        }
    }

    pub fn get(&self, name: &str) -> (r: Result<&ModuleSymbol, String>)
        requires
            self.wf(),
        ensures
            r matches Ok(s) ==> self@.contains_key(name@) && *s == self@[name@],
            r matches Err(e) ==> !self@.contains_key(name@) && e@ == "not declared"@,
    {
        match self.symbols.get(name) {
            Some(s) => Ok(s),
            None => Err(String::from_str("not declared")),
        }
    }

    pub fn symbols(&self) -> (r: &NameMap<ModuleSymbol>)
        ensures
            r@ == self@,
            r.names() == self.names(),
            self.wf() ==> r.wf(),
    {
        &self.symbols
    }

    /// Records that the extern declaration named `from` is known as `to`.
    pub fn set_alias(&mut self, from: String, to: String)
        requires
            old(self).wf(),
        ensures
            final(self).wf(),
            final(self).spec_aliases() == old(self).spec_aliases().insert(from@, to),
            final(self)@ == old(self)@,
            final(self).names() == old(self).names(),
    {
        let _ = self.aliases.insert(from, to);
    }

    pub fn get_alias(&self, real_name: &String) -> (r: Option<&String>)
        requires
            self.wf(),
        ensures
            r matches Some(s) ==> self.spec_aliases().contains_key(real_name@) && *s == self.spec_aliases()[real_name@],
            r is None ==> !self.spec_aliases().contains_key(real_name@),
    {
        self.aliases.get(real_name.as_str())
    }

    /// The name and binding at position `i`, in the order the names were
    /// first added.
    pub closed spec fn entry(&self, i: int) -> (Seq<char>, ModuleSymbol) {
        self.symbols.entry_at(i)
    }

    /// A table of the module's symbols, one line each.
    pub fn dump(&self, symbols: &SymbolInterner, filepath: &str) -> (s: String)
        requires
            self.wf(),
        ensures
            s@ == "Symbols in "@ + filepath@ + "\n"@ + "-----------------------------------\n"@ + list_lines(
                *self,
                symbols@,
                self.names().len(),
            ),
    {
        let mut s = String::new();
        push_str(&mut s, "Symbols in ");
        push_str(&mut s, filepath);
        push_str(&mut s, "\n");
        push_str(&mut s, "-----------------------------------\n");
        let ghost head = s@;
        let n = self.symbols.len();
        let mut i: usize = 0;
        while i < n
            invariant
                self.wf(),
                n == self.symbols.names().len(),
                n == self.names().len(),
                i <= n,
                s@ == head + list_lines(*self, symbols@, i as nat),
            decreases n - i,
        {
            let (name, modsym) = self.symbols.at(i);
            let ghost before = s@;
            push_padded(&mut s, name.as_str(), 20);
            match symbols.try_get(modsym.id) {
                Some(sym) => {
                    let t = sym.to_text();
                    push_str(&mut s, t.as_str());
                },
                None => {},
            }
            push_str(&mut s, "\n");
            assert(s@ =~= before + entry_line(self.entry(i as int), symbols@));
            i = i + 1;
        }
        assert(s@ =~= "Symbols in "@ + filepath@ + "\n"@ + "-----------------------------------\n"@ + list_lines(
            *self,
            symbols@,
            self.names().len(),
        ));
        s
    }
}

} // verus!
