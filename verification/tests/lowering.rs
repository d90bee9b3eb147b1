use sysy_compiler::ast::CompUnit;
use sysy_compiler::ir::error::IRBuilderErr;
use sysy_compiler::ir::IRBuilder;
use sysy_compiler::sysy::CompUnitParser;

fn parse(source: &str) -> CompUnit {
    CompUnitParser::new()
        .parse(source)
        .unwrap_or_else(|error| panic!("failed to parse test input: {error:?}"))
}

fn generate_ir(source: &str) -> Result<String, IRBuilderErr> {
    let unit = parse(source);
    IRBuilder::new().gen_comp_unit(&unit)
}

#[test]
fn lowers_const_array_values_in_dimensions() {
    let source = r#"
        const int dimensions[2] = {2, 3};
        int matrix[dimensions[0]][dimensions[1]];
        int main() { return matrix[1][2]; }
    "#;
    let ir = generate_ir(source).expect("failed to evaluate const array dimensions");

    assert!(ir.contains("global @matrix = alloc [[i32, 3], 2], zeroinit"));
}

#[test]
fn rejects_excess_array_initializers() {
    let error = generate_ir("int main() { int values[2] = {1, 2, 3}; return 0; }")
        .expect_err("excess initializers should be rejected");
    assert!(matches!(error, IRBuilderErr::TooManyInitializers(_)));
}

#[test]
fn rejects_mismatched_array_parameter_shape() {
    let source = r#"
        int first(int values[][3]) { return values[0][0]; }
        int main() {
            int values[2][4];
            return first(values);
        }
    "#;
    let error = generate_ir(source).expect_err("array shapes should be type checked");
    assert!(matches!(error, IRBuilderErr::ArgumentTypeMismatch { .. }));
}

fn generate_asm(source: &str) -> String {
    let ir = generate_ir(source).expect("failed to generate Koopa IR");
    let program = sysy_compiler::riscv::str_to_program(&ir).expect("failed to parse generated Koopa IR");
    sysy_compiler::riscv::generate_asm(&program).expect("failed to generate RISC-V assembly")
}

#[test]
fn lowers_multidimensional_arrays_and_parameters() {
    let source = r#"
        int matrix[2][3] = {{1, 2}, {3}};
        int get(int values[][3], int row, int col) {
            return values[row][col];
        }
        int main() {
            int local[2][3] = {1, 2, 3, 4};
            local[1][2] = matrix[1][0];
            return get(local, 1, 2);
        }
    "#;
    let ir = generate_ir(source).expect("failed to generate array IR");

    assert!(ir.contains("global @matrix = alloc [[i32, 3], 2], {{1, 2, 0}, {3, 0, 0}}"));
    assert!(ir.contains("fun @get(%arg_0: *[i32, 3]"));
    assert!(ir.contains(" = getptr "));
    assert!(ir.contains(" = getelemptr "));
    assert!(ir.contains("call @get("));
    sysy_compiler::riscv::str_to_program(&ir).expect("generated array IR should be valid Koopa");
}

#[test]
fn aligns_nested_initializers_to_the_current_subarray() {
    let source = r#"
        int values[2][3][4] = {1, 2, 3, 4, {5}, {}};
        int main() { return values[0][1][0]; }
    "#;
    let ir = generate_ir(source).expect("nested initializer alignment should be supported");

    assert!(ir.contains("{{{1, 2, 3, 4}, {5, 0, 0, 0}, {0, 0, 0, 0}}"));
    sysy_compiler::riscv::str_to_program(&ir).expect("aligned initializer should produce valid Koopa");
}

#[test]
fn function_parameters_do_not_collide_with_globals() {
    let source = r#"
        int n;
        int first(int values[], int n) { return values[n]; }
        int main() {
            int values[1] = {7};
            return first(values, n);
        }
    "#;
    let ir = generate_ir(source).expect("global and parameter names may be identical");

    assert!(ir.contains("fun @first(%arg_0: *i32, %arg_1: i32)"));
    sysy_compiler::riscv::str_to_program(&ir).expect("parameter names should resolve locally");
}

#[test]
fn emits_array_assembly_and_handles_large_stack_offsets() {
    let source = r#"
        int main() {
            int values[2000];
            values[1999] = 7;
            return values[1999];
        }
    "#;
    let assembly = generate_asm(source);

    assert!(assembly.contains("li t0, -"));
    assert!(assembly.contains("add sp, sp, t0"));
    assert!(assembly.contains("li t2, 4"));
    for line in assembly.lines().map(str::trim) {
        if let Some(immediate) = line.strip_prefix("addi sp, sp, ") {
            let immediate = immediate.parse::<i64>().expect("invalid addi immediate");
            assert!((-2048..=2047).contains(&immediate));
        }
    }
}
