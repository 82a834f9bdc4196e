use koi::ast::file::filename_of;
use koi::cgen::emit::emit;
use koi::cgen::nodes::Expr as CExpr;
use koi::config::{join_path, Config, PathManager};
use koi::driver::emit_string;
use koi::ir::types::{IRType, IRTypeInterner, Primitive};
use koi::sema::type_interner::TypeInterner;
use koi::sema::types::{FunctionType, PrimitiveType, TypeKind};
use koi::x86::assemble::{assemble, round_to_16};
use koi::x86::assembly::{Reg, Size, UnsignedReg};

fn c_lines(src: &str) -> Vec<String> {
    let unit = match emit_string(src) {
        Ok(u) => u,
        Err(d) => panic!("compilation failed: {:?}", d.reports()),
    };
    let text = emit(&unit, &Config::test(), &PathManager::new(String::new())).to_text();
    text.lines().map(|l| l.trim().to_string()).filter(|l| !l.is_empty()).collect()
}

fn first_error(src: &str) -> String {
    match emit_string(src) {
        Ok(_) => panic!("expected an error"),
        Err(d) => d.reports()[0].message.clone(),
    }
}

#[test]
fn error_missing_return() {
    assert_eq!(first_error("func f() int {\n    x := 1\n}\n"), "missing return in function 'f'");
}

#[test]
fn error_mismatched_binary_types() {
    assert_eq!(
        first_error("func f(a int, b bool) int {\n    return a + b\n}\n"),
        "mismatched types in expression: 'i32' and 'bool'"
    );
}

#[test]
fn error_not_declared() {
    assert_eq!(first_error("func f() int {\n    return y\n}\n"), "not declared");
}

#[test]
fn error_break_outside_loop() {
    assert_eq!(first_error("func f() {\n    break\n}\n"), "break cannot be used outside a loop");
}

#[test]
fn error_main_return_type() {
    assert_eq!(first_error("func main() bool {\n    return true\n}\n"), "main function must return 'i32', got 'bool'");
}

#[test]
fn error_argument_count() {
    assert_eq!(
        first_error("func g(a int) int {\n    return a\n}\nfunc f() int {\n    return g()\n}\n"),
        "function takes 1 arguments, got 0"
    );
}

#[test]
fn error_incorrect_return_type() {
    assert_eq!(
        first_error("func f() int {\n    return true\n}\n"),
        "incorrect return type: expected 'i32', got 'bool'"
    );
}

#[test]
fn error_constant_overflow() {
    assert_eq!(
        first_error("func f() i8 {\n    return 300 as i8\n}\n"),
        "constant value overflows target type 'i8'"
    );
}

#[test]
fn error_modulo_on_bool() {
    assert_eq!(
        first_error("func f(a bool, b bool) bool {\n    return a % b\n}\n"),
        "operator '%' cannot be used on type 'bool'"
    );
}

#[test]
fn error_already_declared() {
    assert_eq!(first_error("func f() {\n    a := 1\n    a := 2\n}\n"), "already declared");
}

#[test]
fn error_void_variable() {
    assert_eq!(
        first_error("func g() {\n    return\n}\nfunc f() {\n    a := g()\n}\n"),
        "cannot assign void type to variable"
    );
}

#[test]
fn c_for_loop() {
    let got = c_lines("func f() {\n    for i := 0; i < 3; i += 1 {\n    }\n}\n");
    let want: Vec<String> = vec![
        "#include \"include/koi.h\"",
        "void f() {",
        "int32_t t0 = 0;",
        "while (1) {",
        "uint8_t t1 = t0 < 3;",
        "if (!t1) {",
        "break;",
        "}",
        "int32_t t2 = t0 + 1;",
        "t0 = t2;",
        "}",
        "return ;",
        "}",
    ]
    .into_iter()
    .map(String::from)
    .collect();
    assert_eq!(got, want);
}

#[test]
fn c_modulo_and_cast() {
    let got = c_lines("func f(a int, b int) u32 {\n    return a % b\n}\n");
    assert!(got.contains(&"uint32_t t2 = t0 % t1;".to_string()), "{:?}", got);
}

#[test]
fn c_string_escapes() {
    assert_eq!(CExpr::StrLit(String::from("a\"b\n")).to_text(), "\"a\\\"b\\n\"");
}

#[test]
fn x86_modulo_uses_edx() {
    let unit = emit_string("func f(a int, b int) u32 {\n    return a % b\n}\n").unwrap_or_else(|_| panic!("failed"));
    let text = assemble(&unit, &Config::test()).unwrap_or_else(|e| panic!("{}", e)).to_text();
    assert!(text.contains("idiv r10d"), "{}", text);
    assert!(text.contains("mov eax, edx"), "{}", text);
}

#[test]
fn x86_short_circuit_with_computed_sides() {
    let unit = emit_string("func f(a int, b int) bool {\n    return a < b && b < a\n}\n").unwrap_or_else(|_| panic!("failed"));
    let text = assemble(&unit, &Config::test()).unwrap_or_else(|e| panic!("{}", e)).to_text();
    assert!(text.contains("jz .Lf_cond_end_0"), "{}", text);
    assert!(text.contains(".Lf_cond_end_0:"), "{}", text);
}

#[test]
fn x86_too_many_arguments() {
    let src = "func f(a int, b int, c int, d int, e int, g int, h int) {\n    return\n}\n";
    let unit = emit_string(src).unwrap_or_else(|_| panic!("failed"));
    match assemble(&unit, &Config::test()) {
        Ok(_) => panic!("expected an error"),
        Err(e) => assert_eq!(e, "exceeded maximum int registers"),
    }
}

#[test]
fn round_to_16_values() {
    assert_eq!(round_to_16(0), Some(0));
    assert_eq!(round_to_16(1), Some(16));
    assert_eq!(round_to_16(16), Some(16));
    assert_eq!(round_to_16(17), Some(32));
    assert_eq!(round_to_16(usize::MAX), None);
}

#[test]
fn registers_by_size() {
    assert_eq!(UnsignedReg::Rax.to_sized(Size::Byte), Reg::Al);
    assert_eq!(UnsignedReg::Rdi.to_sized(Size::Dword), Reg::Edi);
    assert_eq!(UnsignedReg::R10.to_sized(Size::Word), Reg::R10w);
    assert_eq!(UnsignedReg::Rsi.to_sized(Size::Qword), Reg::Rsi);
}

#[test]
fn type_interning_is_canonical() {
    let mut t = TypeInterner::new();
    let i32_id = t.primitive(PrimitiveType::I32);
    let a = t.get_or_intern(TypeKind::Function(FunctionType { params: vec![i32_id], ret: i32_id }));
    let n = t.len();
    let b = t.get_or_intern(TypeKind::Function(FunctionType { params: vec![i32_id], ret: i32_id }));
    assert_eq!(a, b);
    assert_eq!(t.len(), n);
    assert_eq!(t.type_to_string(i32_id), "i32");
    let refs = t.get_all_references(a);
    assert_eq!(refs, vec![i32_id, a]);
}

#[test]
fn ir_type_interning_and_text() {
    let mut t = IRTypeInterner::new();
    let i = t.get_or_intern(IRType::Primitive(Primitive::I32));
    let u = t.get_or_intern(IRType::Primitive(Primitive::U8));
    let f = t.get_or_intern(IRType::Function(vec![i, u], i));
    assert_eq!(t.get_or_intern(IRType::Primitive(Primitive::I32)), i);
    assert_eq!(t.type_to_string(f), "func(i32, u8)->i32");
    assert_eq!(t.sizeof(u), 1);
    assert_eq!(t.sizeof(f), 8);
}

#[test]
fn paths() {
    assert_eq!(join_path("", "include"), "include");
    assert_eq!(join_path("root", "lib"), "root/lib");
    assert_eq!(join_path("root/", "lib"), "root/lib");
    assert_eq!(PathManager::new(String::from("/opt/koi")).include_path(), "/opt/koi/include");
    assert_eq!(filename_of("a/b/main.koi"), "main.koi");
    assert_eq!(filename_of("main.koi"), "main.koi");
}

#[test]
fn configs() {
    assert!(Config::test().no_mangle_names);
    assert!(!Config::normal().no_mangle_names);
    assert!(Config::debug().dump_types);
    assert_eq!(Config::default(), Config::normal());
}
