use vstd::prelude::*;

use crate::ast::nodes as ast;
use crate::ast::nodes::Node;
use crate::ast::file::FileSet;
use crate::ast::token::Token;
use crate::common::error::{Diagnostics, Report, Res};
use crate::common::text::push_str;
use crate::sema::context::Context;
use crate::sema::modpath::{ImportPath, ModulePath};
use crate::sema::module::{CreateModule, ModuleKind, ModuleSourceFile, Namespace, NamespaceList};
use crate::sema::symbols::{CreateSymbol, ModuleSymbol, ModuleSymbolKind, SymbolKind, SymbolList, SymbolOrigin};
use crate::sema::typed::TypedAst;
use crate::sema::types::{kind_refs_below, FunctionType, PrimitiveType, TypeId, TypeKind, NUM_PRIMITIVES, prim_index};
use crate::typecheck::file_check::{
    decl_well_typed, eval_type_in, namespaces_valid, ntypes, symbols_valid, token_name, FileChecker,
};

verus! {

/// Type checks each file set into a module and adds the modules to the
/// context, in order. Stops at the first module with errors.
pub fn check_filesets(ctx: &mut Context, filesets: &Vec<FileSet>) -> (r: Res<()>)
    requires
        old(ctx).wf(),
    ensures
        final(ctx).wf(),
        r is Ok ==> final(ctx).modules@.len() == old(ctx).modules@.len() + filesets@.len(),
{
    let mut i: usize = 0;
    while i < filesets.len()
        invariant
            ctx.wf(),
            i <= filesets@.len(),
            ctx.modules@.len() == old(ctx).modules@.len() + i,
        decreases filesets@.len() - i,
    {
        let cm = check_fileset(ctx, &filesets[i])?;
        add_module(ctx, cm);
        i = i + 1;
    }
    Ok(())
}

/// Adds a checked module to the context.
pub fn add_module(ctx: &mut Context, cm: CreateModule)
    requires
        old(ctx).wf(),
        symbols_valid(&cm.symbols, old(ctx)),
        crate::sema::module::module_files_wf(cm.kind),
    ensures
        final(ctx).wf(),
        final(ctx).modules@.len() == old(ctx).modules@.len() + 1,
        final(ctx).symbols@ == old(ctx).symbols@,
        final(ctx).types == old(ctx).types,
{
    let ghost old_mods = ctx.modules@;
    let ghost syms = cm.symbols;
    let ghost kind = cm.kind;
    let id = ctx.modules.add(cm);
    assert forall|i: int| 0 <= i < ctx.modules@.len() implies crate::sema::module::module_files_wf(
        #[trigger] ctx.modules@[i].kind,
    ) by {
        if i < id {
            assert(ctx.modules@[i] == ctx.modules@.take(id as int)[i]);
        }
    }
    assert forall|i: int| 0 <= i < ctx.modules@.len() implies (#[trigger] ctx.modules@[i]).symbols.wf()
        && forall|k: Seq<char>| #[trigger] ctx.modules@[i].symbols@.contains_key(k)
            ==> ctx.modules@[i].symbols@[k].id < ctx.symbols@.len() by {
        if i < id {
            assert(ctx.modules@[i] == ctx.modules@.take(id as int)[i]);
            assert(ctx.modules@[i] == old_mods[i]);
        }
    }
}

/// Every declaration of every file of a source module is well typed.
pub open spec fn module_well_typed(ctx: &Context, kind: ModuleKind) -> bool {
    kind matches ModuleKind::Source { files, .. } ==> forall|i: int, j: int|
        0 <= i < files@.len() && 0 <= j < files@[i].ast.decls@.len() ==> decl_well_typed(
            ctx,
            #[trigger] files@[i].ast.decls@[j],
        )
}

/// Type checks the files of one module: declares its types, imports and
/// functions, then checks every function body.
pub fn check_fileset(ctx: &mut Context, fs: &FileSet) -> (r: Res<CreateModule>)
    requires
        old(ctx).wf(),
    ensures
        final(ctx).wf(),
        r matches Ok(cm) ==> symbols_valid(&cm.symbols, final(ctx)),
        r matches Ok(cm) ==> crate::sema::module::module_files_wf(cm.kind),
        r matches Ok(cm) ==> cm.kind is Source && module_well_typed(final(ctx), cm.kind),
        final(ctx).modules@ == old(ctx).modules@,
{
    let mut syms = SymbolList::new();
    declare_intrinsics(ctx, &mut syms);
    let mut diag = Diagnostics::new();

    // Imports, file by file.
    let mut nsls: Vec<NamespaceList> = Vec::new();
    let mut i: usize = 0;
    while i < fs.files.len()
        invariant
            ctx.wf(),
            ctx.modules@ == old(ctx).modules@,
            symbols_valid(&syms, ctx),
            i <= fs.files@.len(),
            nsls@.len() == i,
            forall|j: int| 0 <= j < nsls@.len() ==> namespaces_valid(&#[trigger] nsls@[j], ctx),
        decreases fs.files@.len() - i,
    {
        let nsl = declare_imports(ctx, &mut syms, &fs.files[i].ast, &mut diag);
        nsls.push(nsl);
        i = i + 1;
    }

    // Functions and extern declarations of every file.
    let mut i: usize = 0;
    while i < fs.files.len()
        invariant
            ctx.wf(),
            ctx.modules@ == old(ctx).modules@,
            symbols_valid(&syms, ctx),
            i <= fs.files@.len(),
            nsls@.len() == fs.files@.len(),
            forall|j: int| 0 <= j < nsls@.len() ==> namespaces_valid(&#[trigger] nsls@[j], ctx),
        decreases fs.files@.len() - i,
    {
        let file = &fs.files[i];
        let mut j: usize = 0;
        while j < file.ast.decls.len()
            invariant
                ctx.wf(),
                ctx.modules@ == old(ctx).modules@,
                symbols_valid(&syms, ctx),
                i < nsls@.len(),
                nsls@.len() == fs.files@.len(),
                forall|k: int| 0 <= k < nsls@.len() ==> namespaces_valid(&#[trigger] nsls@[k], ctx),
            decreases file.ast.decls@.len() - j,
        {
            let res = match &file.ast.decls[j] {
                ast::Decl::Func(node) => declare_function(
                    ctx,
                    &mut syms,
                    &nsls[i],
                    &fs.modpath,
                    &file.filename,
                    node.public,
                    &node.name,
                    &node.params,
                    &node.ret_type,
                    false,
                ),
                ast::Decl::Extern(node) => declare_function(
                    ctx,
                    &mut syms,
                    &nsls[i],
                    &fs.modpath,
                    &file.filename,
                    node.public,
                    &node.name,
                    &node.params,
                    &node.ret_type,
                    true,
                ),
            };
            match res {
                Ok(()) => {},
                Err(e) => diag.add(e),
            }
            j = j + 1;
        }
        i = i + 1;
    }
    if diag.num_errors() > 0 {
        return Err(diag);
    }

    // Function bodies.
    let is_main = fs.modpath.is_main();
    let mut files: Vec<ModuleSourceFile> = Vec::new();
    let n = fs.files.len();
    let mut i: usize = 0;
    while nsls.len() > 0
        invariant
            n == fs.files@.len(),
            ctx.wf(),
            symbols_valid(&syms, ctx),
            forall|k: int| 0 <= k < nsls@.len() ==> namespaces_valid(&#[trigger] nsls@[k], ctx),
            i + nsls@.len() == fs.files@.len(),
            ctx.modules@ == old(ctx).modules@,
            forall|j: int| 0 <= j < files@.len() ==> (#[trigger] files@[j]).namespaces.wf(),
            forall|a: int, b: int| 0 <= a < files@.len() && 0 <= b < files@[a].ast.decls@.len() ==> decl_well_typed(
                ctx,
                #[trigger] files@[a].ast.decls@[b],
            ),
        decreases nsls@.len(),
    {
        let ghost before = nsls@;
        let nsl = nsls.remove(0);
        assert(nsl == before[0]);
        assert(namespaces_valid(&nsl, ctx));
        assert(i < fs.files@.len());
        assert forall|k: int| 0 <= k < nsls@.len() implies namespaces_valid(&#[trigger] nsls@[k], ctx) by {
            assert(nsls@[k] == before[k + 1]);
        }
        let mut checker = FileChecker::new(ctx, &syms, nsl, is_main);
        let file = &fs.files[i];
        match checker.emit_ast(ctx, &syms, &file.ast) {
            Ok(decls) => {
                files.push(ModuleSourceFile {
                    filename: file.filename.clone(),
                    ast: TypedAst { decls },
                    namespaces: checker.into_namespaces(ctx, &syms),
                });
            },
            Err(d) => {
                return Err(d);
            },
        }
        i = i + 1;
    }
    Ok(CreateModule {
        modpath: fs.modpath.clone(),
        kind: ModuleKind::Source { filepath: fs.filepath.clone(), files },
        symbols: syms,
    })
}

/// Adds a symbol whose type exists.
fn add_symbol(ctx: &mut Context, sym: CreateSymbol) -> (id: usize)
    requires
        old(ctx).wf(),
        sym.ty < ntypes(old(ctx)),
    ensures
        final(ctx).wf(),
        id == old(ctx).symbols@.len(),
        final(ctx).symbols@.len() == old(ctx).symbols@.len() + 1,
        final(ctx).symbols@.take(id as int) == old(ctx).symbols@,
        final(ctx).symbols@[id as int].name == sym.name,
        final(ctx).symbols@[id as int].kind == sym.kind,
        final(ctx).symbols@[id as int].ty == sym.ty,
        final(ctx).symbols@[id as int].origin == sym.origin,
        final(ctx).types == old(ctx).types,
        final(ctx).modules@ == old(ctx).modules@,
{
    let ghost old_syms = ctx.symbols@;
    let id = ctx.symbols.add(sym);
    assert forall|i: int| 0 <= i < ctx.symbols@.len() implies (#[trigger] ctx.symbols@[i]).ty < ntypes(ctx) by {
        if i < id {
            assert(ctx.symbols@[i] == ctx.symbols@.take(id as int)[i]);
        }
    }
    id
}

/// The type of the given kind, interned, or `None` when there is no room
/// for another type.
fn intern_type(ctx: &mut Context, kind: TypeKind) -> (r: Option<TypeId>)
    requires
        old(ctx).wf(),
        kind_refs_below(kind, ntypes(old(ctx))),
    ensures
        final(ctx).wf(),
        ntypes(final(ctx)) >= ntypes(old(ctx)),
        r is Some <==> ntypes(old(ctx)) < usize::MAX - 2,
        r matches Some(t) ==> t < ntypes(final(ctx)) && crate::sema::types::spec_kind_eq(
            final(ctx).types.kinds()[t as int],
            kind,
        ),
        final(ctx).symbols@ == old(ctx).symbols@,
        final(ctx).modules@ == old(ctx).modules@,
{
    if ctx.types.len() >= usize::MAX - 2 {
        return None;
    }
    let id = ctx.types.get_or_intern(kind);
    proof {
        assert(old(ctx).types.kinds().is_prefix_of(ctx.types.kinds()));
    }
    Some(id)
}

/// Adds a symbol list entry, reporting a name declared twice.
fn declare_name(syms: &mut SymbolList, name: String, sym: ModuleSymbol, tok: &Token) -> (r: Result<(), Report>)
    requires
        old(syms).wf(),
    ensures
        final(syms).wf(),
        final(syms)@ == old(syms)@.insert(name@, sym),
        r is Ok <==> !old(syms)@.contains_key(name@),
{
    match syms.add(name, sym) {
        Ok(()) => Ok(()),
        Err(_) => Err(Report::code_error("already declared", &tok.pos, &tok.end_pos)),
    }
}

/// Declares the primitive types under their names, with `int` for `i32` and
/// `float` for `f32`.
fn declare_intrinsics(ctx: &mut Context, syms: &mut SymbolList)
    requires
        old(ctx).wf(),
        symbols_valid(old(syms), old(ctx)),
    ensures
        final(ctx).wf(),
        symbols_valid(final(syms), final(ctx)),
        final(ctx).modules@ == old(ctx).modules@,
        final(ctx).types == old(ctx).types,
        final(ctx).symbols@.len() == old(ctx).symbols@.len() + NUM_PRIMITIVES + 2,
        final(ctx).symbols@.take(old(ctx).symbols@.len() as int) == old(ctx).symbols@,
        final(syms)@.contains_key("int"@) && final(syms)@.contains_key("float"@),
        final(ctx).symbols@[final(syms)@["int"@].id as int].kind == SymbolKind::Type,
        final(ctx).symbols@[final(syms)@["int"@].id as int].ty == prim_index(PrimitiveType::I32),
        final(ctx).symbols@[final(syms)@["float"@].id as int].kind == SymbolKind::Type,
        final(ctx).symbols@[final(syms)@["float"@].id as int].ty == prim_index(PrimitiveType::F32),
{
    let mut i: usize = 0;
    while i < NUM_PRIMITIVES
        invariant
            ctx.wf(),
            symbols_valid(syms, ctx),
            ctx.modules@ == old(ctx).modules@,
            ctx.types == old(ctx).types,
            i <= NUM_PRIMITIVES,
            ctx.symbols@.len() == old(ctx).symbols@.len() + i,
            ctx.symbols@.take(old(ctx).symbols@.len() as int) == old(ctx).symbols@,
        decreases NUM_PRIMITIVES - i,
    {
        let p = PrimitiveType::from_index(i);
        let ghost before = ctx.symbols@;
        declare_type(ctx, syms, p.name(), p);
        assert(ctx.symbols@.take(old(ctx).symbols@.len() as int) =~= before.take(old(ctx).symbols@.len() as int));
        i = i + 1;
    }
    let ghost b1 = ctx.symbols@;
    declare_type(ctx, syms, "int", PrimitiveType::I32);
    let ghost b2 = ctx.symbols@;
    let ghost int_id = b1.len();
    declare_type(ctx, syms, "float", PrimitiveType::F32);
    proof {
        reveal_strlit("int");
        reveal_strlit("float");
        assert("int"@.len() == 3 && "float"@.len() == 5);
        assert(ctx.symbols@[int_id as int] == ctx.symbols@.take(b2.len() as int)[int_id as int]);
        assert(ctx.symbols@.take(old(ctx).symbols@.len() as int) =~= b1.take(old(ctx).symbols@.len() as int));
    }
}

/// Declares a primitive type under a name: a new intrinsic type symbol of
/// that primitive, which the name then stands for in the module.
fn declare_type(ctx: &mut Context, syms: &mut SymbolList, name: &str, p: PrimitiveType)
    requires
        old(ctx).wf(),
        symbols_valid(old(syms), old(ctx)),
    ensures
        final(ctx).wf(),
        symbols_valid(final(syms), final(ctx)),
        final(ctx).modules@ == old(ctx).modules@,
        final(ctx).types == old(ctx).types,
        final(ctx).symbols@.len() == old(ctx).symbols@.len() + 1,
        final(ctx).symbols@.take(old(ctx).symbols@.len() as int) == old(ctx).symbols@,
        final(ctx).symbols@.last().name@ == name@,
        final(ctx).symbols@.last().kind == SymbolKind::Type,
        final(ctx).symbols@.last().ty == prim_index(p),
        final(ctx).symbols@.last().origin == SymbolOrigin::Intrinsic,
        final(syms)@ == old(syms)@.insert(
            name@,
            ModuleSymbol { id: old(ctx).symbols@.len() as usize, kind: ModuleSymbolKind::Module, exported: false },
        ),
{
    let ty = ctx.types.primitive(p);
    let id = add_symbol(
        ctx,
        CreateSymbol {
            name: String::from_str(name),
            alias: None,
            kind: SymbolKind::Type,
            ty,
            origin: SymbolOrigin::Intrinsic,
            is_exported: false,
            no_mangle: true,
        },
    );
    let _ = syms.add(String::from_str(name), ModuleSymbol { id, kind: ModuleSymbolKind::Module, exported: false });
}

/// The name of the namespace an import makes: its alias, else the last
/// part of its path.
pub open spec fn namespace_name(node: ast::ImportNode) -> Seq<char> {
    match node.alias {
        Some(a) => crate::ast::token::kind_text(a.kind),
        None => if node.names@.len() > 0 {
            crate::ast::token::kind_text(node.names@.last().kind)
        } else {
            Seq::empty()
        },
    }
}

/// The import names no items, and its module is known.
pub open spec fn makes_namespace(ctx: &Context, node: ast::ImportNode) -> bool {
    node.imports@.len() == 0 && ctx.modules.keys().contains_key(crate::ast::file::dotted_names(node.names@))
}

/// Resolves the imports of one file: named items become symbols of the
/// module, other imports become namespaces of the file.
fn declare_imports(ctx: &Context, syms: &mut SymbolList, ast: &ast::Ast, diag: &mut Diagnostics) -> (r: NamespaceList)
    requires
        ctx.wf(),
        symbols_valid(old(syms), ctx),
    ensures
        symbols_valid(final(syms), ctx),
        namespaces_valid(&r, ctx),
        forall|n: Seq<char>| #[trigger] r@.contains_key(n) <==> exists|i: int|
            0 <= i < ast.imports@.len() && makes_namespace(ctx, #[trigger] ast.imports@[i]) && namespace_name(
                ast.imports@[i],
            ) == n,
{
    let mut nsl = NamespaceList::new();
    let mut i: usize = 0;
    while i < ast.imports.len()
        invariant
            ctx.wf(),
            symbols_valid(syms, ctx),
            namespaces_valid(&nsl, ctx),
            i <= ast.imports@.len(),
            forall|n: Seq<char>| #[trigger] nsl@.contains_key(n) <==> exists|j: int|
                0 <= j < i && makes_namespace(ctx, #[trigger] ast.imports@[j]) && namespace_name(ast.imports@[j]) == n,
        decreases ast.imports@.len() - i,
    {
        let node = &ast.imports[i];
        let ghost nsl0 = nsl@;
        let mut path = String::new();
        let mut k: usize = 0;
        proof {
            reveal_strlit(".");
        }
        while k < node.names.len()
            invariant
                k <= node.names@.len(),
                path@ == crate::ast::file::dotted_names(node.names@.take(k as int)),
            decreases node.names@.len() - k,
        {
            let ghost before = path@;
            if k > 0 {
                push_str(&mut path, ".");
            }
            let part = token_name(&node.names[k]);
            push_str(&mut path, part.as_str());
            proof {
                let t = node.names@.take(k + 1);
                assert(t.drop_last() =~= node.names@.take(k as int));
                if k == 0 {
                    assert(path@ =~= crate::ast::file::dotted_names(t));
                } else {
                    assert(path@ =~= crate::ast::file::dotted_names(t));
                }
            }
            k = k + 1;
        }
        assert(node.names@.take(node.names@.len() as int) =~= node.names@);
        let impath = ImportPath::new(path);
        match ctx.modules.resolve(&impath) {
            Err(e) => diag.add(Report::code_error(e.as_str(), &node.pos(), &node.end())),
            Ok(m) => {
                proof {
                    let mi = ctx.modules.keys()[impath@] as int;
                    assert(ctx.modules@[mi].symbols.wf());
                }
                if node.imports.len() > 0 {
                    let mut j: usize = 0;
                    while j < node.imports.len()
                        invariant
                            ctx.wf(),
                            symbols_valid(syms, ctx),
                            m.symbols.wf(),
                            forall|k: Seq<char>| #[trigger] m.symbols@.contains_key(k) ==> m.symbols@[k].id < ctx.symbols@.len(),
                            nsl@ == nsl0,
                            namespaces_valid(&nsl, ctx),
                            i < ast.imports@.len(),
                            forall|n: Seq<char>| #[trigger] nsl@.contains_key(n) <==> exists|jj: int|
                                0 <= jj < i && makes_namespace(ctx, #[trigger] ast.imports@[jj]) && namespace_name(ast.imports@[jj]) == n,
                        decreases node.imports@.len() - j,
                    {
                        let item = &node.imports[j];
                        let name = token_name(item);
                        match m.symbols.get(name.as_str()) {
                            Ok(ms) => {
                                if ms.exported {
                                    let imported = ModuleSymbol { id: ms.id, kind: ModuleSymbolKind::Imported, exported: false };
                                    match declare_name(syms, name, imported, item) {
                                        Ok(()) => {},
                                        Err(e) => diag.add(e),
                                    }
                                } else {
                                    diag.add(Report::code_error("not exported", &item.pos, &item.end_pos));
                                }
                            },
                            Err(_) => diag.add(Report::code_error("not declared", &item.pos, &item.end_pos)),
                        }
                        j = j + 1;
                    }
                } else {
                    let nsname = match &node.alias {
                        Some(a) => token_name(a),
                        None => if node.names.len() > 0 {
                            token_name(&node.names[node.names.len() - 1])
                        } else {
                            String::new()
                        },
                    };
                    let ns = Namespace::new(nsname, m);
                    let ghost mi = ctx.modules.keys()[impath@] as int;
                    match nsl.add(ns) {
                        Ok(()) => {},
                        Err(e) => diag.add(Report::code_error(e.as_str(), &node.pos(), &node.end())),
                    }
                }
            },
        }
        i = i + 1;
    }
    nsl
}

/// Declares a function or extern function: its type, its symbol in the
/// context, and its name in the module.
fn declare_function(
    ctx: &mut Context,
    syms: &mut SymbolList,
    nsl: &NamespaceList,
    modpath: &ModulePath,
    filename: &String,
    public: bool,
    name: &Token,
    params: &Vec<ast::Field>,
    ret_type: &Option<ast::TypeNode>,
    is_extern: bool,
) -> (r: Result<(), Report>)
    requires
        old(ctx).wf(),
        symbols_valid(old(syms), old(ctx)),
        namespaces_valid(nsl, old(ctx)),
    ensures
        final(ctx).wf(),
        symbols_valid(final(syms), final(ctx)),
        final(ctx).modules@ == old(ctx).modules@,
        final(ctx).symbols@.len() >= old(ctx).symbols@.len(),
        old(syms)@.contains_key(crate::ast::token::kind_text(name.kind)) ==> r is Err,
        r is Ok ==> {
            &&& final(ctx).symbols@.len() == old(ctx).symbols@.len() + 1
            &&& final(ctx).symbols@.take(old(ctx).symbols@.len() as int) == old(ctx).symbols@
            &&& final(ctx).symbols@.last().name@ == crate::ast::token::kind_text(name.kind)
            &&& final(ctx).symbols@.last().kind == SymbolKind::Function { is_inline: false, is_naked: false }
            &&& final(ctx).types.kinds()[final(ctx).symbols@.last().ty as int] matches TypeKind::Function(f)
                && f.params@.len() == params@.len()
            &&& final(syms)@ == old(syms)@.insert(
                crate::ast::token::kind_text(name.kind),
                ModuleSymbol { id: old(ctx).symbols@.len() as usize, kind: ModuleSymbolKind::Module, exported: public },
            )
        },
{
    let mut ps: Vec<TypeId> = Vec::new();
    let mut i: usize = 0;
    while i < params.len()
        invariant
            ctx.wf(),
            symbols_valid(syms, ctx),
            namespaces_valid(nsl, ctx),
            forall|j: int| 0 <= j < ps@.len() ==> (#[trigger] ps@[j]) < ntypes(ctx),
            i <= params@.len(),
            ps@.len() == i,
            ctx == old(ctx),
            syms == old(syms),
        decreases params@.len() - i,
    {
        let t = eval_type_in(ctx, syms, nsl, &params[i].typ)?;
        ps.push(t);
        i = i + 1;
    }
    let ret = match ret_type {
        Some(t) => eval_type_in(ctx, syms, nsl, t)?,
        None => ctx.types.void(),
    };
    proof {
        ctx.types.lemma_wf();
    }
    let kind = TypeKind::Function(FunctionType { params: ps, ret });
    let ty = match intern_type(ctx, kind) {
        Some(t) => t,
        None => {
            return Err(Report::code_error("too many types", &name.pos, &name.end_pos));
        },
    };
    let fname = token_name(name);
    let origin = if is_extern {
        SymbolOrigin::Extern
    } else {
        SymbolOrigin::Module { modpath: modpath.clone(), pos: name.pos, filename: filename.clone() }
    };
    let id = add_symbol(
        ctx,
        CreateSymbol {
            name: fname.clone(),
            alias: None,
            kind: SymbolKind::Function { is_inline: false, is_naked: false },
            ty,
            origin,
            is_exported: public,
            no_mangle: false,
        },
    );
    declare_name(syms, fname, ModuleSymbol { id, kind: ModuleSymbolKind::Module, exported: public }, name)
}

} // verus!
