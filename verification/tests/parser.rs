use sysy_compiler::ast::{
    BlockItem, CompUnit, CompUnitItem, ConstInitVal, Decl, FuncDeclParamType, FuncParamType, InitVal, Stmt,
};
use sysy_compiler::sysy::CompUnitParser;

fn parse(source: &str) -> CompUnit {
    CompUnitParser::new()
        .parse(source)
        .unwrap_or_else(|error| panic!("failed to parse test input: {error:?}"))
}

#[test]
fn parses_multidimensional_array_initializer() {
    let unit = parse("int a[2][3] = {{1, 2}, {3}};");
    let CompUnitItem::Decl(Decl::VarDecl(decl)) = &unit.items[0] else {
        panic!("expected a variable declaration");
    };
    let def = &decl.var_defs[0];

    assert_eq!(def.id.id, "a");
    assert_eq!(def.dimensions.len(), 2);

    let Some(InitVal::List(rows)) = &def.init else {
        panic!("expected a list initializer");
    };
    assert_eq!(rows.len(), 2);
    assert!(matches!(&rows[0], InitVal::List(values) if values.len() == 2));
    assert!(matches!(&rows[1], InitVal::List(values) if values.len() == 1));
}

#[test]
fn parses_const_array_initializer() {
    let unit = parse("const int a[2][2] = {{1}, {2, 3}};");
    let CompUnitItem::Decl(Decl::ConstDecl(decl)) = &unit.items[0] else {
        panic!("expected a constant declaration");
    };
    let def = &decl.const_defs[0];

    assert_eq!(def.dimensions.len(), 2);
    let ConstInitVal::List(rows) = &def.init else {
        panic!("expected a list initializer");
    };
    assert_eq!(rows.len(), 2);
    assert!(matches!(&rows[0], ConstInitVal::List(values) if values.len() == 1));
    assert!(matches!(&rows[1], ConstInitVal::List(values) if values.len() == 2));
}

#[test]
fn parses_array_parameter_and_indexed_assignment() {
    let unit = parse("int f(int a[][3], int i) { a[i][1] = 2; return 0; }");
    let CompUnitItem::FuncDef(function) = &unit.items[0] else {
        panic!("expected a function definition");
    };
    let params = function.params.as_deref().expect("expected parameters");

    assert_eq!(params.len(), 2);
    assert!(matches!(
        &params[0].ty,
        FuncParamType::Array {
            trailing_dimensions,
            ..
        } if trailing_dimensions.len() == 1
    ));
    assert!(matches!(&params[1].ty, FuncParamType::Scalar(_)));

    let BlockItem::Stmt(Stmt::Assign(l_val, _)) = &function.block.items[0] else {
        panic!("expected an indexed assignment");
    };
    assert_eq!(l_val.id.id, "a");
    assert_eq!(l_val.indices.len(), 2);
}

#[test]
fn parses_array_type_in_function_declaration() {
    let unit = parse("extern int f(int[][3], int);");
    let CompUnitItem::FuncDecl(function) = &unit.items[0] else {
        panic!("expected a function declaration");
    };

    assert_eq!(function.params.len(), 2);
    assert!(matches!(
        &function.params[0],
        FuncDeclParamType::Array {
            trailing_dimensions,
            ..
        } if trailing_dimensions.len() == 1
    ));
    assert!(matches!(&function.params[1], FuncDeclParamType::Scalar(_)));
}

#[test]
fn rejects_empty_dimension_in_variable_declaration() {
    let result = CompUnitParser::new().parse("int a[];");
    assert!(result.is_err());
}

#[test]
fn scalar_program_still_parses() {
    let unit = parse("int main() { int x = 1; x++; return x; }");
    assert_eq!(unit.items.len(), 1);
}

#[test]
fn else_belongs_to_the_nearest_if() {
    let unit = parse("int main() { if (1) if (0) return 1; else return 2; return 3; }");
    let CompUnitItem::FuncDef(function) = &unit.items[0] else {
        panic!("expected a function definition");
    };
    let BlockItem::Stmt(Stmt::If(_, inner, outer_else)) = &function.block.items[0] else {
        panic!("expected an if statement");
    };
    assert!(outer_else.is_none());
    assert!(matches!(&**inner, Stmt::If(_, _, Some(_))));
}
