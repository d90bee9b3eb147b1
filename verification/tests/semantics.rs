use sysy_compiler::ir::generate::initializer::format_aggregate;
use sysy_compiler::ir::types::{scalar_count, Type};
use sysy_compiler::ast::CompUnit;
use sysy_compiler::ir::error::IRBuilderErr;
use sysy_compiler::ir::IRBuilder;
use sysy_compiler::riscv::context::strip_prefix;
use sysy_compiler::riscv::error::GenerateAsmError;
use sysy_compiler::riscv::{generate_asm, str_to_program};
use sysy_compiler::sysy::CompUnitParser;

fn parse(source: &str) -> CompUnit {
    CompUnitParser::new()
        .parse(source)
        .unwrap_or_else(|error| panic!("failed to parse test input: {error:?}"))
}

fn ir(source: &str) -> Result<String, IRBuilderErr> {
    IRBuilder::new().gen_comp_unit(&parse(source))
}

fn assembly(source: &str) -> String {
    let text = ir(source).expect("lowering to Koopa failed");
    let program = str_to_program(&text).expect("generated Koopa should parse");
    generate_asm(&program).expect("lowering to RISC-V failed")
}

#[test]
fn output_starts_with_library_declarations() {
    let text = ir("int main() { return 0; }").unwrap();
    assert!(text.starts_with("decl @getint(): i32\ndecl @getch(): i32\ndecl @getarray(*i32): i32\n"));
    assert!(text.contains("decl @putarray(i32, *i32)\ndecl @starttime()\ndecl @stoptime()\n\n"));
    assert!(text.contains("fun @main(): i32 {\n%entry:\n\tret 0\n}\n"));
}

#[test]
fn constant_expressions_fold_in_dimensions() {
    let text = ir("const int n = 2 + 3 * 4; int a[n]; int main() { return 0; }").unwrap();
    assert!(text.contains("global @a = alloc [i32, 14], zeroinit"));
}

#[test]
fn constant_arithmetic_wraps_around() {
    let text = ir("const int x = 2147483647 + 1; int g = x; int main() { return 0; }").unwrap();
    assert!(text.contains("global @g = alloc i32, -2147483648"));
}

#[test]
fn constant_division_follows_truncation() {
    let text = ir("int g = -7 / 2; int h = -7 % 2; int main() { return 0; }").unwrap();
    assert!(text.contains("global @g = alloc i32, -3"));
    assert!(text.contains("global @h = alloc i32, -1"));
}

#[test]
fn constant_division_by_zero_is_rejected() {
    let error = ir("const int x = 1 / 0; int main() { return 0; }").unwrap_err();
    assert_eq!(error, IRBuilderErr::InvalidConstDivision);
    let error = ir("const int y = (-2147483647 - 1) / -1; int main() { return 0; }").unwrap_err();
    assert_eq!(error, IRBuilderErr::InvalidConstDivision);
}

#[test]
fn short_circuit_constants_skip_the_right_operand() {
    let text = ir("const int a = 1 || 1 / 0; const int b = 0 && 1 / 0; int g = a + b; int main() { return 0; }")
        .unwrap();
    assert!(text.contains("global @g = alloc i32, 1"));
}

#[test]
fn brace_elision_fills_rows_in_order() {
    let text = ir("int a[2][2] = {{1}, 2, 3}; int main() { return 0; }").unwrap();
    assert!(text.contains("global @a = alloc [[i32, 2], 2], {{1, 0}, {2, 3}}"));
}

#[test]
fn scalar_global_is_its_value() {
    let text = ir("int g = 5; const int c[2] = {0, 0}; int main() { return 0; }").unwrap();
    assert!(text.contains("global @g = alloc i32, 5"));
    assert!(text.contains("global @c = alloc [i32, 2], zeroinit"));
}

#[test]
fn function_declarations_are_not_read() {
    let text = ir("extern int f(int); int main() { return 0; }").unwrap();
    assert!(!text.contains("decl @f"));
    assert!(text.contains("decl @stoptime()\n\nfun @main(): i32 {"));
}

#[test]
fn calling_a_function_that_is_only_declared_is_rejected() {
    let error = ir("int f(int); int main() { return f(1); }").unwrap_err();
    assert_eq!(error, IRBuilderErr::UndefinedSymbol("@f".to_string()));
}

#[test]
fn declared_then_defined_function_is_not_declared() {
    let text = ir("int f(int); int f(int x) { return x; } int main() { return f(1); }").unwrap();
    assert!(!text.contains("decl @f"));
    assert!(text.contains("fun @f(%arg_0: i32): i32 {"));
}

#[test]
fn declaration_that_differs_from_the_definition_is_not_read() {
    let text = ir("int f(int); void f(int x) { } int main() { return 0; }").unwrap();
    assert!(text.contains("fun @f(%arg_0: i32) {"));
}

#[test]
fn indices_after_a_scalar_constant_are_not_read() {
    let text = ir("const int c = 5; int a[c[0]]; int main() { return 0; }").unwrap();
    assert!(text.contains("global @a = alloc [i32, 5], zeroinit"));
}

#[test]
fn redefining_a_library_function_is_rejected() {
    let error = ir("int getint() { return 1; } int main() { return 0; }").unwrap_err();
    assert_eq!(error, IRBuilderErr::DuplicateSymbol("@getint".to_string()));
}

#[test]
fn duplicate_local_is_rejected() {
    let error = ir("int main() { int x = 1; int x = 2; return x; }").unwrap_err();
    assert_eq!(error, IRBuilderErr::DuplicateSymbol("@x".to_string()));
}

#[test]
fn inner_block_may_shadow() {
    let text = ir("int main() { int x = 1; { int x = 2; x = 3; } return x; }").unwrap();
    assert!(text.contains("@x_0 = alloc i32"));
    assert!(text.contains("@x_1 = alloc i32"));
    assert!(text.contains("store 3, @x_1"));
}

#[test]
fn undefined_name_is_rejected() {
    let error = ir("int main() { return y; }").unwrap_err();
    assert_eq!(error, IRBuilderErr::UndefinedSymbol("@y".to_string()));
}

#[test]
fn assignment_to_constant_is_rejected() {
    let error = ir("int main() { const int c = 1; c = 2; return c; }").unwrap_err();
    assert_eq!(error, IRBuilderErr::AssignToConst("@c".to_string()));
    let error = ir("int main() { const int c[1] = {1}; c[0] = 2; return 0; }").unwrap_err();
    assert_eq!(error, IRBuilderErr::AssignToConst("@c".to_string()));
}

#[test]
fn assignment_to_array_is_rejected() {
    let error = ir("int main() { int a[2]; a = 1; return 0; }").unwrap_err();
    assert_eq!(error, IRBuilderErr::ExpectedScalarLVal("@a".to_string()));
}

#[test]
fn calling_a_variable_is_rejected() {
    let error = ir("int main() { int f = 1; return f(); }").unwrap_err();
    assert_eq!(error, IRBuilderErr::NotAFunction("@f".to_string()));
}

#[test]
fn argument_count_is_checked() {
    let error = ir("int f(int a) { return a; } int main() { return f(1, 2); }").unwrap_err();
    assert_eq!(
        error,
        IRBuilderErr::ArgumentCountMismatch { function: "@f".to_string(), expected: 1, actual: 2 }
    );
}

#[test]
fn argument_types_are_named_in_the_error() {
    let error = ir("int f(int a[]) { return a[0]; } int main() { return f(1); }").unwrap_err();
    assert_eq!(
        error,
        IRBuilderErr::ArgumentTypeMismatch {
            function: "@f".to_string(),
            index: 0,
            expected: "*i32".to_string(),
            actual: "i32".to_string(),
        }
    );
}

#[test]
fn return_values_are_checked() {
    assert_eq!(ir("int main() { return; }").unwrap_err(), IRBuilderErr::MissingReturnValue);
    assert_eq!(
        ir("void f() { return 1; } int main() { return 0; }").unwrap_err(),
        IRBuilderErr::UnexpectedReturnValue
    );
    assert_eq!(
        ir("int main() { int x = 1; }").unwrap_err(),
        IRBuilderErr::MissingFunctionReturn("@main".to_string())
    );
}

#[test]
fn void_function_returns_at_its_end() {
    let text = ir("void f() { } int main() { f(); return 0; }").unwrap();
    assert!(text.contains("fun @f() {\n%entry:\n\tret\n}\n"));
    assert!(text.contains("\tcall @f()\n"));
}

#[test]
fn void_call_has_no_value() {
    let error = ir("void f() { } int main() { return f(); }").unwrap_err();
    assert_eq!(error, IRBuilderErr::ExpectedValue);
}

#[test]
fn break_outside_a_loop_is_rejected() {
    let error = ir("int main() { break; return 0; }").unwrap_err();
    assert!(matches!(error, IRBuilderErr::EmptyLoopStack(_)));
}

#[test]
fn array_lengths_are_checked() {
    assert_eq!(
        ir("int a[0]; int main() { return 0; }").unwrap_err(),
        IRBuilderErr::InvalidArrayLength(0)
    );
    assert_eq!(
        ir("int a[2147483647][2147483647][2147483647]; int main() { return 0; }").unwrap_err(),
        IRBuilderErr::ArraySizeOverflow
    );
}

#[test]
fn initializer_shapes_are_checked() {
    assert_eq!(
        ir("int a[2] = 1; int main() { return 0; }").unwrap_err(),
        IRBuilderErr::InvalidInitializer("[i32, 2]".to_string())
    );
    assert_eq!(
        ir("int x = {1, 2}; int main() { return 0; }").unwrap_err(),
        IRBuilderErr::TooManyInitializers("i32".to_string())
    );
}

#[test]
fn global_initializers_must_be_constant() {
    let error = ir("int x = 1; int y = x; int main() { return 0; }").unwrap_err();
    assert_eq!(error, IRBuilderErr::NonConstSymbol("@x".to_string()));
}

#[test]
fn constant_array_index_must_be_in_range() {
    let error = ir("const int c[2] = {1, 2}; int a[c[2]]; int main() { return 0; }").unwrap_err();
    assert_eq!(error, IRBuilderErr::InvalidLVal("@c".to_string()));
}

#[test]
fn local_array_initializer_stores_every_element() {
    let text = ir("int main() { int a[2] = {7}; return a[1]; }").unwrap();
    assert!(text.contains("\t@a_0 = alloc [i32, 2]\n\t%0 = getelemptr @a_0, 0\n\tstore 7, %0\n\t%1 = getelemptr @a_0, 1\n\tstore 0, %1\n"));
}

#[test]
fn increments_load_add_and_store() {
    let text = ir("int main() { int x = 1; x++; x--; return x; }").unwrap();
    assert!(text.contains("\t%0 = load @x_0\n\t%1 = add %0, 1\n\tstore %1, @x_0\n"));
    assert!(text.contains("\t%2 = load @x_0\n\t%3 = sub %2, 1\n\tstore %3, @x_0\n"));
}

#[test]
fn strip_prefix_drops_the_sigil() {
    assert_eq!(strip_prefix(&"@main".to_string()).unwrap(), "main");
    assert_eq!(strip_prefix(&"%entry".to_string()).unwrap(), "entry");
    assert!(matches!(strip_prefix(&"main".to_string()), Err(GenerateAsmError::Parse)));
    assert!(matches!(strip_prefix(&String::new()), Err(GenerateAsmError::Parse)));
}

#[test]
fn small_frames_use_addi() {
    let text = assembly("int main() { return 3; }");
    assert!(text.contains("\t.text\n\t.globl main\nmain:\n\taddi sp, sp, 0\n"));
    assert!(text.contains("\tli a0, 3\n\taddi sp, sp, 0\n\tret\n"));
}

#[test]
fn calls_save_the_return_address() {
    let text = assembly("int f(int a) { return a; } int main() { return f(4); }");
    assert!(text.contains("\taddi sp, sp, -16\n\tsw ra, 12(sp)\n"));
    assert!(text.contains("\tli a0, 4\n\tcall f\n"));
    assert!(text.contains("\tlw ra, 12(sp)\n\taddi sp, sp, 16\n\tret\n"));
}

#[test]
fn globals_become_data_words() {
    let text = assembly("int g = 5; int z; int main() { return g + z; }");
    assert!(text.contains("\t.data\n\t.globl g\ng:\n\t.word 5\n"));
    assert!(text.contains("\t.data\n\t.globl z\nz:\n\t.zero 4\n"));
    assert!(text.contains("\tla t0, g\n"));
}

#[test]
fn words_are_taken_whole() {
    let text = ir("int main() { int intx = 1; return intx; }").unwrap();
    assert!(text.contains("@intx_0 = alloc i32"));
}

#[test]
fn void_has_no_scalars() {
    assert_eq!(scalar_count(&Type::Void), 0);
    let ty = Type::Array(Box::new(Type::Array(Box::new(Type::I32), 3)), 2);
    assert_eq!(scalar_count(&ty), 6);
    assert_eq!(scalar_count(&Type::Array(Box::new(Type::I32), 0)), 0);
}

#[test]
fn aggregate_reads_only_its_scalars() {
    let ty = Type::Array(Box::new(Type::Array(Box::new(Type::I32), 3)), 2);
    assert_eq!(format_aggregate(&ty, &vec![1, 2, 0, 3, 0, 0]), "{{1, 2, 0}, {3, 0, 0}}");
    assert_eq!(format_aggregate(&ty, &vec![1, 2, 0, 3, 0, 0, 9]), "{{1, 2, 0}, {3, 0, 0}}");
}

#[test]
fn items_after_a_return_are_not_lowered() {
    let text = ir("int main() { return 0; int x = 1; int x = 2; }").unwrap();
    assert!(text.contains("\tret 0\n"));
    assert!(!text.contains("@x"));
}
