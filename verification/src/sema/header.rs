use vstd::prelude::*;

use crate::sema::context::Context;
use crate::sema::modpath::ModulePath;
use crate::sema::module::{exported_names, CreateModule, Module, ModuleKind};
use crate::sema::symbols::{CreateSymbol, ModuleSymbol, ModuleSymbolKind, Symbol, SymbolKind, SymbolList, SymbolOrigin};
use crate::sema::types::{kind_refs_below, FunctionType, PrimitiveType, TypeId, TypeKind};

verus! {

/// The exported interface of a compiled module, as written to a header file:
/// its exported symbols, and every type they refer to, each written out in
/// full.
pub struct HeaderFile {
    pub symbols: Vec<HeaderSymbol>,
    pub types: Vec<HeaderTypeKind>,
}

/// An exported symbol; its type is an index into the header's types.
pub struct HeaderSymbol {
    pub name: String,
    pub alias: Option<String>,
    pub ty: usize,
    pub kind: SymbolKind,
    pub no_mangle: bool,
    pub is_extern: bool,
}

/// A type written out with the types it refers to.
pub enum HeaderTypeKind {
    Primitive(PrimitiveType),
    Array(Box<HeaderTypeKind>),
    Pointer(Box<HeaderTypeKind>),
    Alias(Box<HeaderTypeKind>),
    Unique(String, Box<HeaderTypeKind>),
    Function(Vec<HeaderTypeKind>, Box<HeaderTypeKind>),
}

/// `h` is the type `ty` of `kinds` written out: the same primitive, or the
/// same constructor over the written-out forms of the types it refers to,
/// a unique type keeping its name and a function its parameters in order.
pub open spec fn writes_out(kinds: Seq<TypeKind>, ty: int, h: HeaderTypeKind) -> bool
    decreases ty,
{
    if ty < 0 || ty >= kinds.len() {
        false
    } else {
        match kinds[ty] {
            TypeKind::Primitive(p) => h == HeaderTypeKind::Primitive(p),
            TypeKind::Array(x) => x < ty && match h {
                HeaderTypeKind::Array(i) => writes_out(kinds, x as int, *i),
                _ => false,
            },
            TypeKind::Pointer(x) => x < ty && match h {
                HeaderTypeKind::Pointer(i) => writes_out(kinds, x as int, *i),
                _ => false,
            },
            TypeKind::Alias(x) => x < ty && match h {
                HeaderTypeKind::Alias(i) => writes_out(kinds, x as int, *i),
                _ => false,
            },
            TypeKind::Unique(name, x) => x < ty && match h {
                HeaderTypeKind::Unique(n, i) => n@ == name@ && writes_out(kinds, x as int, *i),
                _ => false,
            },
            TypeKind::Function(f) => kind_refs_below(kinds[ty], ty) && match h {
                HeaderTypeKind::Function(ps, ret) => {
                    &&& ps@.len() == f.params@.len()
                    &&& writes_out(kinds, f.ret as int, *ret)
                    &&& forall|j: int|
                        0 <= j < ps@.len() ==> writes_out(kinds, f.params@[j] as int, #[trigger] ps@[j])
                },
                _ => false,
            },
        }
    }
}

/// Two types, each of its own table of types, have the same shape: the
/// same primitive, or the same constructor over types of the same shape, a
/// unique type with the same name and a function with parameters of the
/// same shapes in the same order.
pub open spec fn same_shape(k1: Seq<TypeKind>, a: int, k2: Seq<TypeKind>, b: int) -> bool
    decreases a,
{
    if a < 0 || a >= k1.len() || b < 0 || b >= k2.len() {
        false
    } else {
        match (k1[a], k2[b]) {
            (TypeKind::Primitive(p), TypeKind::Primitive(q)) => p == q,
            (TypeKind::Array(x), TypeKind::Array(y)) => x < a && same_shape(k1, x as int, k2, y as int),
            (TypeKind::Pointer(x), TypeKind::Pointer(y)) => x < a && same_shape(k1, x as int, k2, y as int),
            (TypeKind::Alias(x), TypeKind::Alias(y)) => x < a && same_shape(k1, x as int, k2, y as int),
            (TypeKind::Unique(n, x), TypeKind::Unique(m, y)) => n@ == m@ && x < a && same_shape(
                k1,
                x as int,
                k2,
                y as int,
            ),
            (TypeKind::Function(f), TypeKind::Function(g)) => {
                &&& kind_refs_below(k1[a], a)
                &&& f.params@.len() == g.params@.len()
                &&& same_shape(k1, f.ret as int, k2, g.ret as int)
                &&& forall|j: int|
                    0 <= j < f.params@.len() ==> same_shape(k1, #[trigger] f.params@[j] as int, k2, g.params@[j] as int)
            },
            _ => false,
        }
    }
}

/// A written-out type determines the type's shape: two types that are
/// written out the same, in any two tables of types, have the same shape.
/// So a type written to a header and read back in another program is the
/// type that was written, parameters in order.
pub proof fn law_written_type_reads_back(k1: Seq<TypeKind>, t: int, k2: Seq<TypeKind>, u: int, h: HeaderTypeKind)
    requires
        writes_out(k1, t, h),
        writes_out(k2, u, h),
    ensures
        same_shape(k1, t, k2, u),
    decreases t,
{
    match (k1[t], k2[u]) {
        (TypeKind::Array(x), TypeKind::Array(y)) => {
            let i = h->Array_0;
            law_written_type_reads_back(k1, x as int, k2, y as int, *i);
        },
        (TypeKind::Pointer(x), TypeKind::Pointer(y)) => {
            let i = h->Pointer_0;
            law_written_type_reads_back(k1, x as int, k2, y as int, *i);
        },
        (TypeKind::Alias(x), TypeKind::Alias(y)) => {
            let i = h->Alias_0;
            law_written_type_reads_back(k1, x as int, k2, y as int, *i);
        },
        (TypeKind::Unique(_, x), TypeKind::Unique(_, y)) => {
            let i = h->Unique_1;
            law_written_type_reads_back(k1, x as int, k2, y as int, *i);
        },
        (TypeKind::Function(f), TypeKind::Function(g)) => {
            let ps = h->Function_0;
            let ret = h->Function_1;
            law_written_type_reads_back(k1, f.ret as int, k2, g.ret as int, *ret);
            assert forall|j: int| 0 <= j < f.params@.len() implies same_shape(
                k1,
                #[trigger] f.params@[j] as int,
                k2,
                g.params@[j] as int,
            ) by {
                assert(writes_out(k1, f.params@[j] as int, ps@[j]));
                assert(writes_out(k2, g.params@[j] as int, ps@[j]));
                law_written_type_reads_back(k1, f.params@[j] as int, k2, g.params@[j] as int, ps@[j]);
            }
        },
        _ => {},
    }
}

/// A written-out form stays one when more types are added to the table.
pub proof fn lemma_writes_out_grows(kinds: Seq<TypeKind>, more: Seq<TypeKind>, ty: int, h: HeaderTypeKind)
    requires
        writes_out(kinds, ty, h),
        kinds.is_prefix_of(more),
    ensures
        writes_out(more, ty, h),
    decreases ty,
{
    assert(kinds[ty] == more[ty]);
    match kinds[ty] {
        TypeKind::Array(x) => lemma_writes_out_grows(kinds, more, x as int, *h->Array_0),
        TypeKind::Pointer(x) => lemma_writes_out_grows(kinds, more, x as int, *h->Pointer_0),
        TypeKind::Alias(x) => lemma_writes_out_grows(kinds, more, x as int, *h->Alias_0),
        TypeKind::Unique(_, x) => lemma_writes_out_grows(kinds, more, x as int, *h->Unique_1),
        TypeKind::Function(f) => {
            let ps = h->Function_0;
            lemma_writes_out_grows(kinds, more, f.ret as int, *h->Function_1);
            assert forall|j: int| 0 <= j < ps@.len() implies writes_out(more, f.params@[j] as int, #[trigger] ps@[j]) by {
                lemma_writes_out_grows(kinds, more, f.params@[j] as int, ps@[j]);
            }
        },
        _ => {},
    }
}

/// The written-out form of the type `ty`.
pub fn real_to_header(ctx: &Context, ty: TypeId) -> (r: HeaderTypeKind)
    requires
        ctx.types.wf(),
        ty < ctx.types.kinds().len(),
    ensures
        ctx.types.kinds()[ty as int] matches TypeKind::Primitive(p) ==> r == HeaderTypeKind::Primitive(p),
        writes_out(ctx.types.kinds(), ty as int, r),
    decreases ty,
{
    proof {
        ctx.types.lemma_wf();
    }
    let kind = &ctx.types.lookup(ty).kind;
    assert(kind_refs_below(*kind, ty as int));
    match kind {
        TypeKind::Primitive(p) => HeaderTypeKind::Primitive(*p),
        TypeKind::Array(id) => HeaderTypeKind::Array(Box::new(real_to_header(ctx, *id))),
        TypeKind::Pointer(id) => HeaderTypeKind::Pointer(Box::new(real_to_header(ctx, *id))),
        TypeKind::Alias(id) => HeaderTypeKind::Alias(Box::new(real_to_header(ctx, *id))),
        TypeKind::Unique(name, id) => HeaderTypeKind::Unique(name.clone(), Box::new(real_to_header(ctx, *id))),
        TypeKind::Function(f) => {
            let mut params: Vec<HeaderTypeKind> = Vec::new();
            let mut i: usize = 0;
            while i < f.params.len()
                invariant
                    ctx.types.wf(),
                    ty < ctx.types.kinds().len(),
                    forall|j: int| 0 <= j < f.params@.len() ==> #[trigger] f.params@[j] < ty,
                    i <= f.params@.len(),
                    params@.len() == i,
                    forall|j: int| 0 <= j < i ==> writes_out(ctx.types.kinds(), f.params@[j] as int, #[trigger] params@[j]),
                decreases f.params@.len() - i,
            {
                params.push(real_to_header(ctx, f.params[i]));
                i = i + 1;
            }
            HeaderTypeKind::Function(params, Box::new(real_to_header(ctx, f.ret)))
        },
    }
}

/// The number of types a written-out type is made of, itself included.
pub open spec fn header_size(k: HeaderTypeKind) -> nat
    decreases k, 1int,
{
    match k {
        HeaderTypeKind::Primitive(_) => 1,
        HeaderTypeKind::Array(inner) => 1 + header_size(*inner),
        HeaderTypeKind::Pointer(inner) => 1 + header_size(*inner),
        HeaderTypeKind::Alias(inner) => 1 + header_size(*inner),
        HeaderTypeKind::Unique(_, inner) => 1 + header_size(*inner),
        HeaderTypeKind::Function(params, ret) => {
            proof {
                assert(decreases_to!(k, 1int => params@, 0int)) by {
                    assert(decreases_to!(k => k->Function_0));
                    assert(decreases_to!(k->Function_0 => params@));
                }
            }
            1 + header_sizes(params@) + header_size(*ret)
        },
    }
}

/// The number of types the written-out types are made of.
pub open spec fn header_sizes(ks: Seq<HeaderTypeKind>) -> nat
    decreases ks, 0int,
{
    if ks.len() == 0 {
        0
    } else {
        header_sizes(ks.drop_last()) + header_size(ks.last())
    }
}

/// A prefix of written-out types is made of no more types than the whole,
/// and one more element adds its own size.
proof fn lemma_header_sizes_take(ks: Seq<HeaderTypeKind>, i: int)
    requires
        0 <= i < ks.len(),
    ensures
        header_sizes(ks.take(i + 1)) == header_sizes(ks.take(i)) + header_size(ks[i]),
        header_sizes(ks.take(i + 1)) <= header_sizes(ks),
    decreases ks.len(),
{
    let t = ks.take(i + 1);
    assert(t.drop_last() =~= ks.take(i));
    if i + 1 < ks.len() {
        lemma_header_sizes_take(ks.drop_last(), i);
        assert(ks.drop_last().take(i + 1) =~= ks.take(i + 1));
    } else {
        assert(t =~= ks);
    }
}

/// Interns the type a written-out type stands for, and the types it refers
/// to. Fails when there is no room for more types.
pub fn header_to_real(ctx: &mut Context, kind: &HeaderTypeKind) -> (r: Result<TypeId, String>)
    requires
        old(ctx).wf(),
    ensures
        final(ctx).wf(),
        final(ctx).symbols@ == old(ctx).symbols@,
        final(ctx).modules@ == old(ctx).modules@,
        final(ctx).config == old(ctx).config,
        final(ctx).types.kinds().len() >= old(ctx).types.kinds().len(),
        r matches Ok(id) ==> id < final(ctx).types.kinds().len(),
        r matches Ok(id) ==> (*kind matches HeaderTypeKind::Primitive(p) ==> final(ctx).types.kinds()[id as int]
            == TypeKind::Primitive(p)),
        final(ctx).types.kinds().len() <= old(ctx).types.kinds().len() + header_size(*kind),
        old(ctx).types.kinds().len() + header_size(*kind) < usize::MAX - 2 ==> r is Ok,
        r matches Err(e) ==> e@ == "too many types"@,
        r matches Ok(id) ==> writes_out(final(ctx).types.kinds(), id as int, *kind),
        old(ctx).types.kinds().is_prefix_of(final(ctx).types.kinds()),
    decreases kind,
{
    let typekind = match kind {
        HeaderTypeKind::Primitive(p) => TypeKind::Primitive(*p),
        HeaderTypeKind::Array(inner) => TypeKind::Array(header_to_real(ctx, inner)?),
        HeaderTypeKind::Pointer(inner) => TypeKind::Pointer(header_to_real(ctx, inner)?),
        HeaderTypeKind::Alias(inner) => TypeKind::Alias(header_to_real(ctx, inner)?),
        HeaderTypeKind::Unique(name, inner) => TypeKind::Unique(name.clone(), header_to_real(ctx, inner)?),
        HeaderTypeKind::Function(params, ret) => {
            let mut ids: Vec<TypeId> = Vec::new();
            let mut i: usize = 0;
            while i < params.len()
                invariant
                    *kind == HeaderTypeKind::Function(*params, *ret),
                    ctx.wf(),
                    ctx.symbols@ == old(ctx).symbols@,
                    ctx.modules@ == old(ctx).modules@,
                    ctx.config == old(ctx).config,
                    ctx.types.kinds().len() >= old(ctx).types.kinds().len(),
                    forall|j: int| 0 <= j < ids@.len() ==> #[trigger] ids@[j] < ctx.types.kinds().len(),
                    i <= params@.len(),
                    ctx.types.kinds().len() <= old(ctx).types.kinds().len() + header_sizes(params@.take(i as int)),
                    ids@.len() == i,
                    forall|j: int| 0 <= j < i ==> writes_out(ctx.types.kinds(), #[trigger] ids@[j] as int, params@[j]),
                    old(ctx).types.kinds().is_prefix_of(ctx.types.kinds()),
                decreases params@.len() - i,
            {
                proof {
                    assert(decreases_to!(kind => params@[i as int])) by {
                        assert(decreases_to!(kind => kind->Function_0));
                        assert(kind->Function_0 == *params);
                        assert(decreases_to!(*params => params@));
                        assert(decreases_to!(params@ => params@[i as int]));
                    }
                }
                let ghost before = ctx.types.kinds().len();
                let ghost kinds_before = ctx.types.kinds();
                proof {
                    let t = params@.take(i + 1);
                    assert(t.drop_last() =~= params@.take(i as int));
                    lemma_header_sizes_take(params@, i as int);
                }
                let id = header_to_real(ctx, &params[i])?;
                assert forall|j: int| 0 <= j < ids@.len() implies #[trigger] ids@[j] < ctx.types.kinds().len() by {
                    assert(before <= ctx.types.kinds().len());
                }
                proof {
                    assert(kinds_before.is_prefix_of(ctx.types.kinds()));
                    assert forall|j: int| 0 <= j < i implies writes_out(ctx.types.kinds(), #[trigger] ids@[j] as int, params@[j]) by {
                        lemma_writes_out_grows(kinds_before, ctx.types.kinds(), ids@[j] as int, params@[j]);
                    }
                }
                ids.push(id);
                i = i + 1;
            }
            let ghost before = ctx.types.kinds().len();
            let ghost kinds_before = ctx.types.kinds();
            assert(params@.take(params@.len() as int) =~= params@);
            let ret_id = header_to_real(ctx, ret)?;
            assert forall|j: int| 0 <= j < ids@.len() implies #[trigger] ids@[j] < ctx.types.kinds().len() by {
                assert(before <= ctx.types.kinds().len());
            }
            proof {
                assert(kinds_before.is_prefix_of(ctx.types.kinds()));
                assert forall|j: int| 0 <= j < ids@.len() implies writes_out(ctx.types.kinds(), #[trigger] ids@[j] as int, params@[j]) by {
                    lemma_writes_out_grows(kinds_before, ctx.types.kinds(), ids@[j] as int, params@[j]);
                }
            }
            TypeKind::Function(FunctionType { params: ids, ret: ret_id })
        },
    };
    if ctx.types.len() >= usize::MAX - 2 {
        return Err(String::from_str("too many types"));
    }
    let ghost old_kinds = ctx.types.kinds();
    let ghost tk = typekind;
    let id = ctx.types.get_or_intern(typekind);
    proof {
        ctx.types.lemma_wf();
        let k = ctx.types.kinds();
        assert(old_kinds.is_prefix_of(k));
        assert(kind_refs_below(k[id as int], id as int));
        let hk = *kind;
        match hk {
            HeaderTypeKind::Primitive(_) => {},
            HeaderTypeKind::Array(inner) => lemma_writes_out_grows(old_kinds, k, tk->Array_0 as int, *inner),
            HeaderTypeKind::Pointer(inner) => lemma_writes_out_grows(old_kinds, k, tk->Pointer_0 as int, *inner),
            HeaderTypeKind::Alias(inner) => lemma_writes_out_grows(old_kinds, k, tk->Alias_0 as int, *inner),
            HeaderTypeKind::Unique(_, inner) => lemma_writes_out_grows(old_kinds, k, tk->Unique_1 as int, *inner),
            HeaderTypeKind::Function(ps, ret) => {
                let ft = tk->Function_0;
                lemma_writes_out_grows(old_kinds, k, ft.ret as int, *ret);
                assert forall|j: int| 0 <= j < ps@.len() implies writes_out(k, ft.params@[j] as int, #[trigger] ps@[j]) by {
                    lemma_writes_out_grows(old_kinds, k, ft.params@[j] as int, ps@[j]);
                }
            },
        }
        assert(writes_out(k, id as int, *kind));
        assert forall|i: int| 0 <= i < ctx.symbols@.len() implies (#[trigger] ctx.symbols@[i]).ty
            < ctx.types.kinds().len() by {
            assert(old_kinds.len() <= ctx.types.kinds().len());
        }
    }
    Ok(id)
}

/// The name a module knows an exported symbol by: its alias when it has
/// one, else its name.
pub open spec fn header_key(h: HeaderSymbol) -> Seq<char> {
    match h.alias {
        Some(a) => a@,
        None => h.name@,
    }
}

/// The name a module knows a symbol of the program by.
pub open spec fn symbol_key(s: Symbol) -> Seq<char> {
    match s.alias {
        Some(a) => a@,
        None => s.name@,
    }
}

/// The header symbol `h` describes the symbol `s`.
pub open spec fn describes(h: HeaderSymbol, s: Symbol) -> bool {
    &&& h.name == s.name
    &&& h.alias == s.alias
    &&& h.kind == s.kind
    &&& h.no_mangle == s.no_mangle
    &&& h.is_extern == (s.origin is Extern)
}

/// `hs` lists the exported symbols of a module (its names, their bindings,
/// and the program's symbols), in the order they were declared.
pub open spec fn describes_exports(
    hs: Seq<HeaderSymbol>,
    names: Seq<Seq<char>>,
    syms: Map<Seq<char>, ModuleSymbol>,
    table: Seq<Symbol>,
) -> bool {
    let ex = exported_names(names, syms);
    &&& hs.len() == ex.len()
    &&& forall|i: int| 0 <= i < hs.len() ==> describes(#[trigger] hs[i], table[syms[ex[i]].id as int])
}

/// The module's bindings `list`, over the program's symbols `table`, are
/// those a header with the symbols `hs` gives: each header symbol is bound
/// under its key to an exported symbol that it describes, and nothing else
/// is bound.
pub open spec fn module_from_header(list: Map<Seq<char>, ModuleSymbol>, table: Seq<Symbol>, hs: Seq<HeaderSymbol>) -> bool {
    &&& forall|i: int| 0 <= i < hs.len() ==> list.contains_key(header_key(#[trigger] hs[i]))
    &&& forall|k: Seq<char>| #[trigger] list.contains_key(k) ==> {
        &&& list[k].exported
        &&& list[k].id < table.len()
        &&& table[list[k].id as int].is_exported
        &&& exists|i: int| 0 <= i < hs.len() && header_key(#[trigger] hs[i]) == k && describes(hs[i], table[list[k].id as int])
    }
}

/// Reading back the header written for a module gives a module that binds
/// each exported symbol under its alias, or its name when it has none, and
/// binds nothing else; each binding is to a symbol with the name, alias,
/// kind and no-mangle flag of an exported symbol with that key.
pub proof fn law_header_round_trip(
    hs: Seq<HeaderSymbol>,
    names: Seq<Seq<char>>,
    syms: Map<Seq<char>, ModuleSymbol>,
    table: Seq<Symbol>,
    list: Map<Seq<char>, ModuleSymbol>,
    table2: Seq<Symbol>,
)
    requires
        describes_exports(hs, names, syms, table),
        module_from_header(list, table2, hs),
    ensures
        forall|k: Seq<char>| #[trigger] list.contains_key(k) <==> exists|i: int|
            0 <= i < exported_names(names, syms).len() && symbol_key(table[syms[exported_names(names, syms)[i]].id as int]) == k,
        forall|k: Seq<char>| #[trigger] list.contains_key(k) ==> exists|i: int|
            0 <= i < exported_names(names, syms).len() && #[trigger] symbol_key(table[syms[exported_names(names, syms)[i]].id as int]) == k
                && table2[list[k].id as int].name == table[syms[exported_names(names, syms)[i]].id as int].name
                && table2[list[k].id as int].alias == table[syms[exported_names(names, syms)[i]].id as int].alias
                && table2[list[k].id as int].kind == table[syms[exported_names(names, syms)[i]].id as int].kind,
{
    let ex = exported_names(names, syms);
    assert forall|k: Seq<char>| #[trigger] list.contains_key(k) implies exists|i: int|
        0 <= i < ex.len() && #[trigger] symbol_key(table[syms[ex[i]].id as int]) == k
            && table2[list[k].id as int].name == table[syms[ex[i]].id as int].name
            && table2[list[k].id as int].alias == table[syms[ex[i]].id as int].alias
            && table2[list[k].id as int].kind == table[syms[ex[i]].id as int].kind by {
        let i = choose|i: int| 0 <= i < hs.len() && header_key(#[trigger] hs[i]) == k && describes(hs[i], table2[list[k].id as int]);
        assert(describes(hs[i], table[syms[ex[i]].id as int]));
        assert(symbol_key(table[syms[ex[i]].id as int]) == header_key(hs[i]));
    }
    assert forall|k: Seq<char>| (exists|i: int|
        0 <= i < ex.len() && symbol_key(table[syms[ex[i]].id as int]) == k) implies #[trigger] list.contains_key(k) by {
        let i = choose|i: int| 0 <= i < ex.len() && symbol_key(table[syms[ex[i]].id as int]) == k;
        assert(describes(hs[i], table[syms[ex[i]].id as int]));
        assert(header_key(hs[i]) == k);
    }
}

/// A copy of an optional name.
fn clone_name(a: &Option<String>) -> (r: Option<String>)
    ensures
        r == *a,
{
    match a {
        Some(s) => Some(s.clone()),
        None => None,
    }
}

/// The position of `ty` in the list, if it is there.
fn position(list: &Vec<TypeId>, ty: TypeId) -> (r: Option<usize>)
    ensures
        r matches Some(i) ==> i < list@.len() && list@[i as int] == ty,
        r is None ==> !list@.contains(ty),
{
    let mut i: usize = 0;
    while i < list.len()
        invariant
            i <= list@.len(),
            forall|j: int| 0 <= j < i ==> list@[j] != ty,
        decreases list@.len() - i,
    {
        if list[i] == ty {
            return Some(i);
        }
        i = i + 1;
    }
    None
}

impl HeaderFile {
    /// The header of a module: its exported symbols, in the order they were
    /// declared, and the types they need.
    pub fn from_module(ctx: &Context, module: &Module) -> (r: HeaderFile)
        requires
            ctx.wf(),
            module.symbols.wf(),
            forall|k: Seq<char>| #[trigger] module.symbols@.contains_key(k) ==> module.symbols@[k].id
                < ctx.symbols@.len(),
        ensures
            describes_exports(r.symbols@, module.symbols.names(), module.symbols@, ctx.symbols@),
            forall|i: int| 0 <= i < r.symbols@.len() ==> (#[trigger] r.symbols@[i]).ty < r.types@.len(),
            forall|i: int|
                0 <= i < r.symbols@.len() ==> writes_out(
                    ctx.types.kinds(),
                    ctx.symbols@[module.symbols@[exported_names(module.symbols.names(), module.symbols@)[i]].id as int].ty as int,
                    r.types@[(#[trigger] r.symbols@[i]).ty as int],
                ),
    {
        let exports = module.exports();
        let ghost ex = exported_names(module.symbols.names(), module.symbols@);
        let mut ids: Vec<TypeId> = Vec::new();
        let mut i: usize = 0;
        while i < exports.len()
            invariant
                ctx.wf(),
                i <= exports@.len(),
                forall|j: int| 0 <= j < ids@.len() ==> #[trigger] ids@[j] < ctx.types.kinds().len(),
                crate::sema::module::lists_exports(exports@, module.symbols.names(), module.symbols@),
                forall|k: Seq<char>| #[trigger] module.symbols@.contains_key(k) ==> module.symbols@[k].id
                    < ctx.symbols@.len(),
                forall|j: int| 0 <= j < i ==> ids@.contains(ctx.symbols@[(#[trigger] exports@[j]).1 as int].ty),
            decreases exports@.len() - i,
        {
            let sym = ctx.symbols.get(exports[i].1);
            let refs = ctx.types.get_all_references(sym.ty);
            let ghost ids0 = ids@;
            let mut k: usize = 0;
            while k < refs.len()
                invariant
                    ctx.wf(),
                    k <= refs@.len(),
                    forall|j: int| 0 <= j < refs@.len() ==> refs@[j] < ctx.types.kinds().len(),
                    forall|j: int| 0 <= j < ids@.len() ==> #[trigger] ids@[j] < ctx.types.kinds().len(),
                    forall|t: TypeId| ids0.contains(t) ==> #[trigger] ids@.contains(t),
                    forall|j: int| 0 <= j < k ==> ids@.contains(#[trigger] refs@[j]),
                decreases refs@.len() - k,
            {
                let ghost before = ids@;
                if position(&ids, refs[k]).is_none() {
                    ids.push(refs[k]);
                    assert(ids@.last() == refs@[k as int]);
                    assert forall|t: TypeId| before.contains(t) implies #[trigger] ids@.contains(t) by {
                        let m = choose|m: int| 0 <= m < before.len() && before[m] == t;
                        assert(ids@[m] == t);
                    }
                }
                assert(ids@.contains(refs@[k as int]));
                k = k + 1;
            }
            let ghost t = sym.ty;
            assert(refs@.contains(t));
            assert(ids@.contains(t)) by {
                let m = choose|m: int| 0 <= m < refs@.len() && refs@[m] == t;
                assert(ids@.contains(refs@[m]));
            }
            i = i + 1;
        }
        let mut types: Vec<HeaderTypeKind> = Vec::new();
        let mut i: usize = 0;
        while i < ids.len()
            invariant
                ctx.wf(),
                forall|j: int| 0 <= j < ids@.len() ==> #[trigger] ids@[j] < ctx.types.kinds().len(),
                types@.len() == i,
                i <= ids@.len(),
                forall|j: int| 0 <= j < i ==> writes_out(ctx.types.kinds(), ids@[j] as int, #[trigger] types@[j]),
            decreases ids@.len() - i,
        {
            types.push(real_to_header(ctx, ids[i]));
            i = i + 1;
        }
        let mut symbols: Vec<HeaderSymbol> = Vec::new();
        let mut i: usize = 0;
        while i < exports.len()
            invariant
                ctx.wf(),
                i <= exports@.len(),
                symbols@.len() == i,
                types@.len() == ids@.len(),
                forall|j: int| 0 <= j < symbols@.len() ==> (#[trigger] symbols@[j]).ty < types@.len(),
                crate::sema::module::lists_exports(exports@, module.symbols.names(), module.symbols@),
                forall|k: Seq<char>| #[trigger] module.symbols@.contains_key(k) ==> module.symbols@[k].id
                    < ctx.symbols@.len(),
                forall|j: int| 0 <= j < exports@.len() ==> ids@.contains(ctx.symbols@[(#[trigger] exports@[j]).1 as int].ty),
                forall|j: int| 0 <= j < i ==> describes(#[trigger] symbols@[j], ctx.symbols@[exports@[j].1 as int]),
                forall|j: int| 0 <= j < ids@.len() ==> writes_out(ctx.types.kinds(), ids@[j] as int, #[trigger] types@[j]),
                forall|j: int| 0 <= j < i ==> writes_out(
                    ctx.types.kinds(),
                    ctx.symbols@[exports@[j].1 as int].ty as int,
                    types@[(#[trigger] symbols@[j]).ty as int],
                ),
            decreases exports@.len() - i,
        {
            let sym = ctx.symbols.get(exports[i].1);
            assert(ids@.contains(ctx.symbols@[exports@[i as int].1 as int].ty));
            match position(&ids, sym.ty) {
                Some(ty) => {
                    symbols.push(HeaderSymbol {
                        name: sym.name.clone(),
                        alias: clone_name(&sym.alias),
                        ty,
                        kind: sym.kind,
                        no_mangle: sym.no_mangle,
                        is_extern: sym.is_extern(),
                    });
                },
                None => {},
            }
            i = i + 1;
        }
        proof {
            assert forall|j: int| 0 <= j < symbols@.len() implies describes(
                #[trigger] symbols@[j],
                ctx.symbols@[module.symbols@[ex[j]].id as int],
            ) by {
                assert(exports@[j].1 == module.symbols@[ex[j]].id);
            }
            assert forall|j: int| 0 <= j < symbols@.len() implies writes_out(
                ctx.types.kinds(),
                ctx.symbols@[module.symbols@[ex[j]].id as int].ty as int,
                types@[(#[trigger] symbols@[j]).ty as int],
            ) by {
                assert(exports@[j].1 == module.symbols@[ex[j]].id);
            }
        }
        HeaderFile { symbols, types }
    }

    /// The module a header describes: its types interned in the context, and
    /// a symbol for each exported symbol, known by its alias when it has one.
    /// Fails when a symbol's type is not in the header.
    pub fn into_module(self, ctx: &mut Context, modpath: ModulePath) -> (r: Result<CreateModule, String>)
        requires
            old(ctx).wf(),
        ensures
            final(ctx).wf(),
            final(ctx).modules@ == old(ctx).modules@,
            r matches Ok(cm) ==> cm.kind is External && cm.modpath == modpath
                && crate::typecheck::file_check::symbols_valid(&cm.symbols, final(ctx)),
            r matches Ok(cm) ==> module_from_header(cm.symbols@, final(ctx).symbols@, self.symbols@),
            (exists|i: int| 0 <= i < self.symbols@.len() && (#[trigger] self.symbols@[i]).ty >= self.types@.len())
                ==> r is Err,
            (forall|i: int| 0 <= i < self.symbols@.len() ==> (#[trigger] self.symbols@[i]).ty < self.types@.len())
                ==> (r is Ok || r->Err_0@ == "too many types"@),
    {
        let mut mappings: Vec<TypeId> = Vec::new();
        let mut i: usize = 0;
        while i < self.types.len()
            invariant
                ctx.wf(),
                ctx.modules@ == old(ctx).modules@,
                forall|j: int| 0 <= j < mappings@.len() ==> #[trigger] mappings@[j] < ctx.types.kinds().len(),
                mappings@.len() == i,
                i <= self.types@.len(),
            decreases self.types@.len() - i,
        {
            let ghost before = ctx.types.kinds().len();
            let id = match header_to_real(ctx, &self.types[i]) {
                Ok(id) => id,
                Err(_) => {
                    return Err(String::from_str("too many types"));
                },
            };
            assert forall|j: int| 0 <= j < mappings@.len() implies #[trigger] mappings@[j] < ctx.types.kinds().len() by {
                assert(before <= ctx.types.kinds().len());
            }
            mappings.push(id);
            i = i + 1;
        }
        let mut list = SymbolList::new();
        let mut i: usize = 0;
        while i < self.symbols.len()
            invariant
                ctx.wf(),
                ctx.modules@ == old(ctx).modules@,
                i <= self.symbols@.len(),
                mappings@.len() == self.types@.len(),
                forall|j: int| 0 <= j < mappings@.len() ==> #[trigger] mappings@[j] < ctx.types.kinds().len(),
                crate::typecheck::file_check::symbols_valid(&list, ctx),
                module_from_header(list@, ctx.symbols@, self.symbols@.take(i as int)),
                forall|j: int| 0 <= j < i ==> (#[trigger] self.symbols@[j]).ty < self.types@.len(),
            decreases self.symbols@.len() - i,
        {
            let s = &self.symbols[i];
            if s.ty >= mappings.len() {
                return Err(String::from_str("mapping not found"));
            }
            let origin = if s.is_extern {
                SymbolOrigin::Extern
            } else {
                SymbolOrigin::Library(modpath.clone())
            };
            let name = match &s.alias {
                Some(a) => a.clone(),
                None => s.name.clone(),
            };
            let ghost old_syms = ctx.symbols@;
            let ghost old_list = list@;
            let ghost hs = self.symbols@.take(i as int);
            let id = ctx.symbols.add(
                CreateSymbol {
                    alias: clone_name(&s.alias),
                    kind: s.kind,
                    name: s.name.clone(),
                    no_mangle: s.no_mangle,
                    is_exported: true,
                    ty: mappings[s.ty],
                    origin,
                },
            );
            proof {
                assert forall|j: int| 0 <= j < ctx.symbols@.len() implies (#[trigger] ctx.symbols@[j]).ty
                    < ctx.types.kinds().len() by {
                    if j < id {
                        assert(ctx.symbols@[j] == ctx.symbols@.take(id as int)[j]);
                    }
                }
                assert forall|k: Seq<char>| #[trigger] old_list.contains_key(k) implies ctx.symbols@[old_list[k].id as int]
                    == old_syms[old_list[k].id as int] by {
                    assert(ctx.symbols@[old_list[k].id as int] == ctx.symbols@.take(id as int)[old_list[k].id as int]);
                }
            }
            let _ = list.add(name, ModuleSymbol { id, exported: true, kind: ModuleSymbolKind::Module });
            proof {
                let hs2 = self.symbols@.take(i + 1);
                let h = self.symbols@[i as int];
                assert(hs2 =~= hs.push(h));
                assert(describes(h, ctx.symbols@[id as int]));
                assert(header_key(h) == name@);
                assert forall|j: int| 0 <= j < hs2.len() implies list@.contains_key(header_key(#[trigger] hs2[j])) by {
                    if j < i {
                        assert(hs2[j] == hs[j]);
                    }
                }
                assert forall|k: Seq<char>| #[trigger] list@.contains_key(k) implies {
                    &&& list@[k].exported
                    &&& list@[k].id < ctx.symbols@.len()
                    &&& ctx.symbols@[list@[k].id as int].is_exported
                    &&& exists|j: int| 0 <= j < hs2.len() && header_key(#[trigger] hs2[j]) == k && describes(
                        hs2[j],
                        ctx.symbols@[list@[k].id as int],
                    )
                } by {
                    if k == name@ {
                        assert(header_key(hs2[i as int]) == k);
                    } else {
                        assert(old_list.contains_key(k));
                        let j = choose|j: int| 0 <= j < hs.len() && header_key(#[trigger] hs[j]) == k && describes(
                            hs[j],
                            old_syms[old_list[k].id as int],
                        );
                        assert(hs2[j] == hs[j]);
                    }
                }
            }
            i = i + 1;
        }
        assert(self.symbols@.take(i as int) =~= self.symbols@);
        Ok(CreateModule { modpath, kind: ModuleKind::External, symbols: list })
    }
}

} // verus!
