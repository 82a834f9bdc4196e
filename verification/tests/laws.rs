use koi::ast::file::{File, FileSet};
use koi::ast::print::Printer;
use koi::common::source::Source;
use koi::config::Config;
use koi::driver::{compile_filesets, order_filesets, parse_source};
use koi::sema::context::Context;
use koi::sema::header::HeaderFile;
use koi::sema::modpath::ModulePath;

fn fileset(id: usize, module: &str, src: &str) -> FileSet {
    let path = format!("{}/{}.koi", module, module);
    let source = Source::new_str(id, path, src.to_string());
    let ast = match parse_source(&source, &Config::test()) {
        Ok(a) => a,
        Err(d) => panic!("parse failed: {:?}", d.reports()),
    };
    FileSet::new(ModulePath::new(module.to_string()), vec![File::new(&source, ast)])
}

const LIB: &str = "pub func one() int {\n    return 1\n}\n\nfunc two() int {\n    return 2\n}\n";
const MAIN: &str = "import lib { one }\n\nfunc main() int {\n    return one()\n}\n";

#[test]
fn import_order_puts_dependencies_first() {
    let sets = vec![fileset(0, "main", MAIN), fileset(1, "lib", LIB)];
    assert_eq!(order_filesets(&sets), Ok(vec![1, 0]));
}

#[test]
fn import_order_keeps_independent_sets() {
    let sets = vec![fileset(0, "lib", LIB), fileset(1, "main", MAIN)];
    assert_eq!(order_filesets(&sets), Ok(vec![0, 1]));
}

#[test]
fn import_cycle_is_refused() {
    let a = "import b\n\nfunc f() {\n}\n";
    let b = "import a\n\nfunc g() {\n}\n";
    let sets = vec![fileset(0, "a", a), fileset(1, "b", b)];
    assert_eq!(order_filesets(&sets), Err("import cycle".to_string()));
}

#[test]
fn compiling_filesets_gives_one_unit_each() {
    let sets = vec![fileset(0, "main", MAIN), fileset(1, "lib", LIB)];
    let mut ctx = Context::new(Config::test());
    let units = match compile_filesets(&mut ctx, &sets) {
        Ok(u) => u,
        Err(d) => panic!("compilation failed: {:?}", d.reports()),
    };
    assert_eq!(units.len(), 2);
    assert_eq!(ctx.modules.modules().len(), 2);
}

#[test]
fn header_round_trip_keeps_exports_only() {
    let sets = vec![fileset(0, "lib", LIB)];
    let mut ctx = Context::new(Config::test());
    if let Err(d) = compile_filesets(&mut ctx, &sets) {
        panic!("compilation failed: {:?}", d.reports());
    }
    let header = HeaderFile::from_module(&ctx, &ctx.modules.modules()[0]);
    assert_eq!(header.symbols.len(), 1);
    assert_eq!(header.symbols[0].name, "one");

    let mut fresh = Context::new(Config::test());
    let cm = match header.into_module(&mut fresh, ModulePath::new("lib".to_string())) {
        Ok(cm) => cm,
        Err(e) => panic!("header refused: {}", e),
    };
    let one = match cm.symbols.get("one") {
        Ok(s) => s.id,
        Err(e) => panic!("exported symbol lost: {}", e),
    };
    assert_eq!(fresh.symbols.get(one).name, "one");
    assert!(cm.symbols.get("two").is_err());
}

#[test]
fn printer_writes_source_back() {
    let src = "func main() int {\n    return 0\n}\n";
    let source = Source::new_str(0, "main.koi".to_string(), src.to_string());
    let ast = match parse_source(&source, &Config::test()) {
        Ok(a) => a,
        Err(d) => panic!("parse failed: {:?}", d.reports()),
    };
    assert_eq!(Printer::to_string(&ast), "func main() int {\n    return 0\n}\n\n");
}

#[test]
fn symbol_dump_names_origin_and_flags() {
    let sets = vec![fileset(0, "lib", LIB)];
    let mut ctx = Context::new(Config::test());
    if let Err(d) = compile_filesets(&mut ctx, &sets) {
        panic!("compilation failed: {:?}", d.reports());
    }
    let dump = ctx.symbols.dump("lib");
    assert!(dump.starts_with("| Symbols in lib\n| ----------------------\n"), "{}", dump);
    assert!(dump.contains("one"), "{}", dump);
    assert!(dump.contains("two"), "{}", dump);
}
