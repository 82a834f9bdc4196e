use vstd::prelude::*;

use crate::ast::nodes::Ast;
use crate::common::error::{Diagnostics, Report, Res};
use crate::common::source::{Pos, Source};
use crate::common::text::str_eq;
use crate::config::Config;
use crate::ir::nodes::Unit;
use crate::lower::{emit_ir, extern_then_functions};
use crate::parser::parse;
use crate::scanner::{scan, scanned, scans_from};
use crate::parser::file_ok;
use crate::ast::token::Token;
use crate::sema::context::Context;
use crate::sema::modpath::ModulePath;
use crate::ast::file::{File, FileSet};
use crate::typecheck::module_check::{add_module, check_fileset};

verus! {

/// Scans and parses one source file.
pub fn parse_source(src: &Source, config: &Config) -> (r: Res<Ast>)
    requires
        src.wf(),
    ensures
        src.src@.len() == 0 ==> (r matches Ok(ast) && ast.decls@.len() == 0),
        r is Ok ==> scans_from(src.src@, 0),
        !scans_from(src.src@, 0) ==> r is Err,
        r is Ok ==> exists|toks: Seq<Token>| #[trigger] scanned(*src, toks) && file_ok(toks),
{
    let toks = scan(src, config)?;
    if toks.len() > usize::MAX - 4 {
        let p = Pos { row: 0, col: 0, offset: 0, line_begin: 0, source_id: src.id };
        return Err(Diagnostics::one(Report::code_error("file too large", &p, &p)));
    }
    let r = parse(&toks);
    proof {
        if r is Ok {
            assert(scanned(*src, toks@) && file_ok(toks@));
        }
    }
    r
}

/// Compiles a program held in one string, as the main module, to its unit
/// of intermediate code. Names are not mangled.
pub fn emit_string(src: &str) -> (r: Res<Unit>)
    ensures
        r matches Ok(u) ==> extern_then_functions(u.decls@),
        r is Ok ==> scans_from(vstd::utf8::encode_utf8(src@), 0),
        !scans_from(vstd::utf8::encode_utf8(src@), 0) ==> r is Err,
{
    let config = Config::test();
    let source = Source::new_str(0, String::from_str("main.koi"), String::from_str(src));
    let ast = parse_source(&source, &config)?;
    let mut ctx = Context::new(config);
    let mut files: Vec<File> = Vec::new();
    files.push(File::new(&source, ast));
    let fs = FileSet::new(ModulePath::new(String::from_str("main")), files);
    let cm = check_fileset(&mut ctx, &fs)?;
    add_module(&mut ctx, cm);
    let id = ctx.modules.modules().len() - 1;
    emit_ir(&ctx, id)
}

/// File set `i` imports the module that file set `j` compiles.
pub open spec fn spec_imports(sets: Seq<FileSet>, i: int, j: int) -> bool {
    exists|k: int| 0 <= k < sets[i].imports@.len() && (#[trigger] sets[i].imports@[k]).impath@ == sets[j].modpath@
}

/// `order` lists every file set once, each after every other set it
/// imports.
pub open spec fn is_import_order(sets: Seq<FileSet>, order: Seq<usize>) -> bool {
    &&& order.len() == sets.len()
    &&& forall|a: int| 0 <= a < order.len() ==> order[a] < sets.len()
    &&& forall|a: int, b: int| 0 <= a < b < order.len() ==> order[a] != order[b]
    &&& forall|a: int, b: int| 0 <= a < b < order.len() ==> !spec_imports(sets, order[a] as int, order[b] as int)
}

/// Does file set `i` import a module that file set `j` compiles?
fn imports_set(sets: &Vec<FileSet>, i: usize, j: usize) -> (r: bool)
    requires
        i < sets@.len(),
        j < sets@.len(),
    ensures
        r == spec_imports(sets@, i as int, j as int),
{
    let target = sets[j].modpath.path();
    let mut k: usize = 0;
    while k < sets[i].imports.len()
        invariant
            i < sets@.len(),
            j < sets@.len(),
            target@ == sets@[j as int].modpath@,
            forall|m: int| 0 <= m < k ==> (#[trigger] sets@[i as int].imports@[m]).impath@ != sets@[j as int].modpath@,
        decreases sets@[i as int].imports@.len() - k,
    {
        if str_eq(sets[i].imports[k].impath.path(), target) {
            assert(sets@[i as int].imports@[k as int].impath@ == sets@[j as int].modpath@);
            return true;
        }
        k = k + 1;
    }
    false
}

/// An order in which to check the file sets: each after every other set it
/// imports. Fails with "import cycle" when no such order exists.
pub fn order_filesets(sets: &Vec<FileSet>) -> (r: Result<Vec<usize>, String>)
    ensures
        r matches Ok(order) ==> is_import_order(sets@, order@),
        r matches Err(e) ==> e@ == "import cycle"@,
{
    let n = sets.len();
    let mut placed: Vec<bool> = Vec::new();
    let mut k: usize = 0;
    while k < n
        invariant
            k <= n,
            placed@.len() == k,
            forall|x: int| 0 <= x < k ==> !placed@[x],
        decreases n - k,
    {
        placed.push(false);
        k = k + 1;
    }
    let mut order: Vec<usize> = Vec::new();
    while order.len() < n
        invariant
            n == sets@.len(),
            placed@.len() == n,
            order@.len() <= n,
            forall|a: int| 0 <= a < order@.len() ==> order@[a] < n && placed@[order@[a] as int],
            forall|a: int, b: int| 0 <= a < b < order@.len() ==> order@[a] != order@[b],
            forall|x: int| 0 <= x < n && placed@[x] ==> order@.contains(x as usize),
            forall|a: int, x: int| 0 <= a < order@.len() && 0 <= x < n && !placed@[x] ==> !#[trigger] spec_imports(
                sets@,
                order@[a] as int,
                x,
            ),
            forall|a: int, b: int| 0 <= a < b < order@.len() ==> !spec_imports(sets@, order@[a] as int, order@[b] as int),
        decreases n - order@.len(),
    {
        let before = order.len();
        let mut i: usize = 0;
        while i < n && order.len() < n
            invariant
                n == sets@.len(),
                placed@.len() == n,
                before <= order@.len() <= n,
                forall|a: int| 0 <= a < order@.len() ==> order@[a] < n && placed@[order@[a] as int],
                forall|a: int, b: int| 0 <= a < b < order@.len() ==> order@[a] != order@[b],
                forall|x: int| 0 <= x < n && placed@[x] ==> order@.contains(x as usize),
                forall|a: int, x: int| 0 <= a < order@.len() && 0 <= x < n && !placed@[x] ==> !#[trigger] spec_imports(
                    sets@,
                    order@[a] as int,
                    x,
                ),
                forall|a: int, b: int| 0 <= a < b < order@.len() ==> !spec_imports(sets@, order@[a] as int, order@[b] as int),
            decreases n - i,
        {
            if !placed[i] {
                let mut ready = true;
                let mut j: usize = 0;
                while j < n
                    invariant
                        n == sets@.len(),
                        placed@.len() == n,
                        i < n,
                        ready ==> forall|x: int| 0 <= x < j && x != i && !placed@[x] ==> !spec_imports(sets@, i as int, x),
                    decreases n - j,
                {
                    if j != i && !placed[j] && imports_set(sets, i, j) {
                        ready = false;
                    }
                    j = j + 1;
                }
                if ready {
                    let ghost old_order = order@;
                    proof {
                        if order@.len() == n {
                            assert forall|x: int| 0 <= x < n implies placed@[x] by {
                                lemma_distinct_fill(order@, n as int, x);
                            }
                            assert(false);
                        }
                    }
                    let ghost old_placed = placed@;
                    order.push(i);
                    placed.set(i, true);
                    assert forall|a: int, x: int| 0 <= a < order@.len() && 0 <= x < n && !placed@[x] implies !#[trigger] spec_imports(
                        sets@,
                        order@[a] as int,
                        x,
                    ) by {
                        if a < old_order.len() {
                            assert(order@[a] == old_order[a]);
                            assert(!old_placed[x]);
                        } else {
                            assert(x != i);
                        }
                    }
                    assert forall|a: int, b: int| 0 <= a < b < order@.len() implies !spec_imports(
                        sets@,
                        order@[a] as int,
                        order@[b] as int,
                    ) by {
                        if b < old_order.len() {
                            assert(order@[a] == old_order[a]);
                            assert(order@[b] == old_order[b]);
                        } else {
                            assert(order@[a] == old_order[a]);
                            assert(order@[b] == i);
                            assert(!old_placed[i as int]);
                        }
                    }
                    assert forall|x: int| 0 <= x < n && placed@[x] implies order@.contains(x as usize) by {
                        if x == i {
                            assert(order@[order@.len() - 1] == i);
                        } else {
                            let w = choose|w: int| 0 <= w < old_order.len() && old_order[w] == x as usize;
                            assert(order@[w] == x as usize);
                        }
                    }
                }
            }
            i = i + 1;
        }
        if order.len() == before {
            return Err(String::from_str("import cycle"));
        }
    }
    Ok(order)
}

/// A list of distinct indices below `n` of length `n` holds every index.
proof fn lemma_distinct_fill(s: Seq<usize>, n: int, x: int)
    requires
        s.len() == n,
        forall|a: int| 0 <= a < s.len() ==> s[a] < n,
        forall|a: int, b: int| 0 <= a < b < s.len() ==> s[a] != s[b],
        0 <= x < n,
    ensures
        s.contains(x as usize),
{
    if !s.contains(x as usize) {
        let m = s.map_values(|v: usize| v as int);
        let all = Set::<int>::new(|v: int| 0 <= v < n && v != x);
        assert(m.to_set().subset_of(all)) by {
            assert forall|v: int| m.to_set().contains(v) implies all.contains(v) by {
                let a = choose|a: int| 0 <= a < m.len() && m[a] == v;
                assert(s[a] < n);
                assert(s[a] != x as usize);
            }
        }
        assert(m.no_duplicates()) by {
            assert forall|a: int, b: int| 0 <= a < m.len() && 0 <= b < m.len() && a != b implies m[a] != m[b] by {
                if a < b {
                    assert(s[a] != s[b]);
                } else {
                    assert(s[b] != s[a]);
                }
            }
        }
        m.unique_seq_to_set();
        assert(all =~= vstd::set_lib::set_int_range(0, n).remove(x));
        vstd::set_lib::lemma_int_range(0, n);
        vstd::set_lib::lemma_len_subset(m.to_set(), all);
        assert(false);
    }
}

/// Checks the file sets in an order that puts each after the sets it
/// imports, adds their modules to the context, and lowers every module
/// compiled from source. Stops at the first module with errors.
pub fn compile_filesets(ctx: &mut Context, sets: &Vec<FileSet>) -> (r: Res<Vec<Unit>>)
    requires
        old(ctx).wf(),
    ensures
        final(ctx).wf(),
        r matches Ok(units) ==> units@.len() == sets@.len() && forall|i: int| 0 <= i < units@.len()
            ==> extern_then_functions(#[trigger] units@[i].decls@),
{
    let order = match order_filesets(sets) {
        Ok(o) => o,
        Err(e) => {
            let p = Pos { row: 0, col: 0, offset: 0, line_begin: 0, source_id: 0 };
            return Err(Diagnostics::one(Report::code_error(e.as_str(), &p, &p)));
        },
    };
    let mut units: Vec<Unit> = Vec::new();
    let mut i: usize = 0;
    while i < order.len()
        invariant
            ctx.wf(),
            forall|a: int| 0 <= a < order@.len() ==> order@[a] < sets@.len(),
            order@.len() == sets@.len(),
            i <= order@.len(),
            units@.len() == i,
            forall|j: int| 0 <= j < units@.len() ==> extern_then_functions(#[trigger] units@[j].decls@),
        decreases order@.len() - i,
    {
        let cm = check_fileset(ctx, &sets[order[i]])?;
        add_module(ctx, cm);
        let id = ctx.modules.modules().len() - 1;
        let unit = emit_ir(ctx, id)?;
        units.push(unit);
        i = i + 1;
    }
    Ok(units)
}

} // verus!
