use koi::ast::file::{File, FileSet};
use koi::ast::nodes::{Decl, Node, Stmt};
use koi::ast::token::TokenKind;
use koi::common::source::Source;
use koi::common::vartable::VarTable;
use koi::config::{load_config_file, Codegen, Config, ConfigFile, Options, Project, ProjectType};
use koi::driver::{compile_filesets, parse_source};
use koi::ir::types::{IRType, IRTypeInterner, Primitive};
use koi::lower::{to_ir, DataInterner};
use koi::scanner::scan;
use koi::sema::context::Context;
use koi::sema::modpath::ModulePath;
use koi::sema::type_interner::TypeInterner;
use koi::sema::types::{PrimitiveType, TypeKind};
use koi::x86::assembly::{Reg, UnsignedReg};

fn source(text: &str) -> Source {
    Source::new_str(0, "t.koi".to_string(), text.to_string())
}

#[test]
fn scan_skips_nested_block_comment() {
    let src = source("/* a /* b */ c */x");
    let toks = scan(&src, &Config::test()).expect("scans");
    assert_eq!(toks.len(), 1);
    assert_eq!(toks[0].kind, TokenKind::IdentLit("x".to_string()));
    assert_eq!(toks[0].pos.offset, 17);
    assert_eq!(toks[0].pos.row, 0);
    assert_eq!(toks[0].pos.col, 17);
}

#[test]
fn scan_reads_hex_literal() {
    let src = source("0x1F");
    let toks = scan(&src, &Config::test()).expect("scans");
    assert_eq!(toks.len(), 1);
    assert_eq!(toks[0].kind, TokenKind::IntLit(31));
    assert_eq!(toks[0].pos.offset, 0);
}

#[test]
fn scan_keeps_newline_and_counts_rows() {
    let src = source("x // c\ny");
    let toks = scan(&src, &Config::test()).expect("scans");
    let kinds: Vec<TokenKind> = toks.iter().map(|t| t.kind.clone()).collect();
    assert_eq!(
        kinds,
        vec![TokenKind::IdentLit("x".to_string()), TokenKind::Newline, TokenKind::IdentLit("y".to_string())]
    );
    assert_eq!(toks[1].pos.offset, 6);
    assert_eq!(toks[2].pos.row, 1);
    assert_eq!(toks[2].pos.col, 0);
    assert_eq!(toks[2].pos.offset, 7);
    assert_eq!(toks[2].pos.line_begin, 7);
}

#[test]
fn scan_refuses_long_byte_string() {
    let src = source("'ab'");
    let d = match scan(&src, &Config::test()) {
        Ok(_) => panic!("a byte string of two characters scanned"),
        Err(d) => d,
    };
    assert_eq!(d.num_errors(), 1);
    assert_eq!(d.reports()[0].message, "byte string must be exactly one character");
}

#[test]
fn scan_reports_each_bad_run() {
    let src = source("'ab' 1 'cd'");
    let d = match scan(&src, &Config::test()) {
        Ok(_) => panic!("scanned"),
        Err(d) => d,
    };
    assert_eq!(d.num_errors(), 2);
}

#[test]
fn expression_id_is_offset_of_its_position() {
    let src = source("func f() {\n    g.h(x)\n    (x)\n}\n");
    let ast = parse_source(&src, &Config::test()).expect("parses");
    let func = match &ast.decls[0] {
        Decl::Func(f) => f,
        _ => panic!("not a function"),
    };
    let mut seen = 0;
    for stmt in &func.body.stmts {
        if let Stmt::ExprStmt(e) = stmt {
            assert_eq!(e.id(), e.pos().offset);
            seen += 1;
        }
    }
    assert_eq!(seen, 2);
}

#[test]
fn type_dump_pads_ids() {
    let t = TypeInterner::new();
    let dump = t.dump_context_string();
    assert!(dump.starts_with("| Types\n|-------------------------------\n| 0   "), "{}", dump);
    assert!(dump.contains("\n| 10  "), "{}", dump);
}

#[test]
fn stored_string_keeps_its_index() {
    let mut d = DataInterner::new();
    let a = d.get_or_intern_string("hello".to_string());
    let b = d.get_or_intern_string("world".to_string());
    let c = d.get_or_intern_string("hello".to_string());
    assert_eq!(a, 0);
    assert_eq!(b, 1);
    assert_eq!(c, 0);
    assert_eq!(d.into_data().len(), 2);
}

#[test]
fn stored_ir_type_leaves_interner_unchanged() {
    let mut t = IRTypeInterner::new();
    let i = t.get_or_intern(IRType::Primitive(Primitive::I32));
    let n = t.len();
    assert_eq!(t.get_or_intern(IRType::Primitive(Primitive::I32)), i);
    assert_eq!(t.len(), n);
}

#[test]
fn lowering_types() {
    let mut ctx = TypeInterner::new();
    let i32_id = ctx.primitive(PrimitiveType::I32);
    let bool_id = ctx.primitive(PrimitiveType::Bool);
    let arr = ctx.get_or_intern(TypeKind::Array(i32_id));
    let ptr = ctx.get_or_intern(TypeKind::Pointer(bool_id));
    let alias = ctx.get_or_intern(TypeKind::Alias(bool_id));
    let mut ir = IRTypeInterner::new();
    let a = to_ir(&ctx, arr, &mut ir);
    assert_eq!(ir.type_to_string(a), "u64");
    let p = to_ir(&ctx, ptr, &mut ir);
    assert_eq!(p, a);
    let b = to_ir(&ctx, alias, &mut ir);
    assert_eq!(ir.type_to_string(b), "u8");
}

#[test]
fn module_ids_match_positions() {
    let lib = "pub func one() int {\n    return 1\n}\n";
    let src = Source::new_str(0, "lib/lib.koi".to_string(), lib.to_string());
    let ast = parse_source(&src, &Config::test()).expect("parses");
    let set = FileSet::new(ModulePath::new("lib".to_string()), vec![File::new(&src, ast)]);
    let mut ctx = Context::new(Config::test());
    if compile_filesets(&mut ctx, &vec![set]).is_err() {
        panic!("compilation failed");
    }
    assert_eq!(ctx.modules.get(0).id, 0);
}

#[test]
fn file_set_collects_imports_once() {
    let a = "import lib { one }\n\nfunc f() {\n}\n";
    let b = "import lib { one }\nimport other\n\nfunc g() {\n}\n";
    let sa = Source::new_str(0, "m/a.koi".to_string(), a.to_string());
    let sb = Source::new_str(1, "m/b.koi".to_string(), b.to_string());
    let fa = File::new(&sa, parse_source(&sa, &Config::test()).expect("parses"));
    let fb = File::new(&sb, parse_source(&sb, &Config::test()).expect("parses"));
    let set = FileSet::new(ModulePath::new("m".to_string()), vec![fa, fb]);
    assert_eq!(set.modpath.path(), "m");
    assert_eq!(set.imports.len(), 2);
    assert_eq!(set.imports[0].impath.path(), "lib");
    assert_eq!(set.imports[0].symbols, vec!["one".to_string()]);
    assert_eq!(set.imports[1].impath.path(), "other");
}

#[test]
fn config_file_is_split_whole() {
    let file = ConfigFile {
        project: Project {
            name: "app".to_string(),
            bin: "bin".to_string(),
            src: "src".to_string(),
            out: "out".to_string(),
            project_type: ProjectType::App,
            includes: None,
            ignore_dirs: vec!["tmp".to_string()],
            link_with: vec!["m".to_string()],
        },
        options: Options { debug_mode: true, install_dir: Some("/opt".to_string()), codegen: Codegen::X86_64 },
    };
    let (project, options, config) = load_config_file(file);
    assert_eq!(project.name, "app");
    assert_eq!(project.ignore_dirs, vec!["tmp".to_string()]);
    assert_eq!(project.link_with, vec!["m".to_string()]);
    assert_eq!(options.install_dir, Some("/opt".to_string()));
    assert_eq!(options.codegen, Codegen::X86_64);
    assert_eq!(config, Config::debug());
}

#[test]
fn register_widths_share_a_full_register() {
    assert_eq!(UnsignedReg::from(Reg::Eax), UnsignedReg::Rax);
    assert_eq!(UnsignedReg::from(Reg::Dil), UnsignedReg::Rdi);
    assert_eq!(UnsignedReg::from(Reg::R9w), UnsignedReg::R9);
    assert_eq!(UnsignedReg::from(Reg::Rsp), UnsignedReg::Rsp);
    assert_eq!(UnsignedReg::from(Reg::Xmm3), UnsignedReg::Xmm3);
}

#[test]
fn closing_a_scope_restores_lookups() {
    let mut vars: VarTable<u32> = VarTable::new();
    assert!(vars.bind("a".to_string(), 1));
    vars.push_scope();
    assert!(vars.bind("a".to_string(), 2));
    assert!(vars.bind("b".to_string(), 3));
    assert_eq!(vars.get("a"), Some(&2));
    vars.pop_scope();
    assert_eq!(vars.get("a"), Some(&1));
    assert_eq!(vars.get("b"), None);
}

#[test]
fn default_config_is_normal() {
    assert_eq!(Config::default(), Config::normal());
}

fn check(src: &str) -> Result<(), String> {
    match koi::driver::emit_string(src) {
        Ok(_) => Ok(()),
        Err(d) => Err(d.reports()[0].message.clone()),
    }
}

#[test]
fn parser_accepts_well_formed_file() {
    let src = source("import lib\n\npub func f(a int) int {\n    return (a + 1) * 2\n}\n\nextern func g() int\n");
    assert!(parse_source(&src, &Config::test()).is_ok());
}

#[test]
fn parser_refuses_unclosed_group() {
    let src = source("func f() {\n    x := (1\n}\n");
    let d = match parse_source(&src, &Config::test()) {
        Ok(_) => panic!("parsed"),
        Err(d) => d,
    };
    assert_eq!(d.num_errors(), 1);
    assert_eq!(d.reports()[0].message, "expected ')'");
}

#[test]
fn parser_wants_newline_between_statements() {
    let src = source("func f() {\n    x := 1 y := 2\n}\n");
    let d = match parse_source(&src, &Config::test()) {
        Ok(_) => panic!("parsed"),
        Err(d) => d,
    };
    assert_eq!(d.reports()[0].message, "expected newline after statement");
}

#[test]
fn checker_accepts_well_typed_operators() {
    assert_eq!(check("func f(a int, b bool) bool {\n    a += 1\n    a = -a\n    return !b\n}\n"), Ok(()));
}

#[test]
fn checker_refuses_not_on_number() {
    assert_eq!(
        check("func f(a int) bool {\n    return !a\n}\n"),
        Err("'!' operator can only be used on type 'bool', got 'i32'".to_string())
    );
}

#[test]
fn checker_refuses_minus_on_bool() {
    assert_eq!(
        check("func f(b bool) bool {\n    return -b\n}\n"),
        Err("'-' operator can only be used on number types, got 'bool'".to_string())
    );
}

#[test]
fn checker_refuses_op_assign_on_bool() {
    assert_eq!(
        check("func f(b bool) {\n    b += b\n}\n"),
        Err("operator '+=' cannot be used on type 'bool'".to_string())
    );
}

#[test]
fn scan_reports_unterminated_string() {
    let src = source("x := \"abc\ny");
    let d = match scan(&src, &Config::test()) {
        Ok(_) => panic!("scanned"),
        Err(d) => d,
    };
    assert_eq!(d.num_errors(), 1);
    assert_eq!(d.reports()[0].message, "expected end quote");
}
