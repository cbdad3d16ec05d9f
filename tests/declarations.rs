use codegen_rs::expr::make::init_struct;
use codegen_rs::expr::{Binding, Expr, Literal, Tuple};
use codegen_rs::generator::{Formatter, GenerateCode};
use codegen_rs::nodes::enum_item::Enum;
use codegen_rs::nodes::function::{Function, Param};
use codegen_rs::nodes::impl_item::Impl;
use codegen_rs::nodes::statement::{Block, LetStatement, ReturnStatement, Statement};
use codegen_rs::nodes::struct_item::{Field, Struct};
use codegen_rs::nodes::trait_item::Trait;
use codegen_rs::nodes::Module;

fn lit(l: Literal) -> Expr {
    Expr::Literal(Box::new(l))
}

fn var(name: &str) -> Expr {
    Expr::Binding(Box::new(Binding::new(name)))
}

#[test]
fn empty_public_struct() {
    let mut s = Struct::new("Unit");
    s.set_public(true);
    assert_eq!(s.to_code_string(), "pub struct Unit {\n}\n");
}

#[test]
fn struct_fields_one_per_line() {
    let mut s = Struct::new("Vec2");
    s.set_public(true);
    s.add_field("x", "f32").set_public(true);
    s.add_field("y", "f32");
    assert_eq!(s.to_code_string(), "pub struct Vec2 {\n    pub x: f32,\n    y: f32,\n}\n");
}

#[test]
fn field_alone() {
    let mut f = Field::new("x", "u8");
    assert_eq!(f.to_code_string(), "x: u8,\n");
    f.set_public(true);
    assert_eq!(f.to_code_string(), "pub x: u8,\n");
}

#[test]
fn public_prototype_with_return_type() {
    let mut f = Function::new("opcode");
    f.set_public(true).set_return_type("u8");
    assert_eq!(f.to_code_string(), "pub fn opcode() -> u8;\n");
}

#[test]
fn function_with_body() {
    let mut f = Function::new("new");
    f.set_public(true)
        .set_const(true)
        .add_param("x", "f32")
        .add_param("y", "f32")
        .set_return_type("Self");
    f.add_body().add_statement(Statement::Return(Box::new(ReturnStatement::new(Expr::StructInitializer(
        Box::new(init_struct("Self").field_auto("x").field_auto("y")),
    )))));
    assert_eq!(
        f.to_code_string(),
        "pub const fn new(x: f32, y: f32) -> Self {\n    return Self { x, y };\n}\n"
    );
}

#[test]
fn statements_each_on_a_line() {
    let mut f = Function::new("f");
    let mut l = LetStatement::new("x", lit(Literal::I32(1)));
    l.set_mut(true);
    f.add_body()
        .add_statement(Statement::Let(Box::new(l)))
        .add_statement(Statement::Let(Box::new(LetStatement::new("y", var("x")))))
        .add_statement(Statement::Return(Box::new(ReturnStatement::new_empty())));
    assert_eq!(
        f.to_code_string(),
        "fn f() {\n    let mut x = 1i32;\n    let y = x;\n    return;\n}\n"
    );
}

#[test]
fn empty_block() {
    assert_eq!(Block::new().to_code_string(), "{\n}\n");
}

#[test]
fn let_and_return_alone() {
    let l = LetStatement::new("a", var("b"));
    assert_eq!(Statement::Let(Box::new(l)).to_code_string(), "let a = b;");
    let r = ReturnStatement::new(lit(Literal::U8(0)));
    assert_eq!(Statement::Return(Box::new(r)).to_code_string(), "return 0u8;\n");
}

#[test]
fn multiline_value_inside_a_body() {
    let t = Tuple::new().multiline(true).add(var("a")).add(var("b"));
    let mut f = Function::new("pair");
    f.add_body()
        .add_statement(Statement::Return(Box::new(ReturnStatement::new(Expr::Tuple(Box::new(t))))));
    assert_eq!(
        f.to_code_string(),
        "fn pair() {\n    return (\n        a,\n        b,\n    );\n}\n"
    );
}

#[test]
fn receiver_spellings() {
    assert_eq!(Param::new_self(false, false).to_code_string(), "self");
    assert_eq!(Param::new_self(false, true).to_code_string(), "mut self");
    assert_eq!(Param::new_self(true, false).to_code_string(), "&self");
    assert_eq!(Param::new_self(true, true).to_code_string(), "&mut self");
    assert_eq!(Param::new("n", "usize").to_code_string(), "n: usize");
}

#[test]
fn trait_with_functions() {
    let mut t = Trait::new("Shape");
    t.set_public(true);
    t.add_function("area").add_self_param(true, false).set_return_type("f64");
    t.add_function("name").add_self_param(true, false).set_return_type("String");
    assert_eq!(
        t.to_code_string(),
        "pub trait Shape {\n    fn area(&self) -> f64;\n\n    fn name(&self) -> String;\n}\n"
    );
}

#[test]
fn impl_of_trait_and_inherent() {
    let mut i = Impl::new("Circle");
    i.set_trait("Shape");
    i.add_function("area").add_self_param(true, false).set_return_type("f64").add_body();
    assert_eq!(
        i.to_code_string(),
        "impl Shape for Circle {\n    fn area(&self) -> f64 {\n    }\n}\n"
    );
    let plain = Impl::new("Circle");
    assert_eq!(plain.to_code_string(), "impl Circle {\n}\n");
}

#[test]
fn enum_without_variants() {
    let mut e = Enum::new("Kind");
    e.set_public(true);
    assert_eq!(e.to_code_string(), "pub enum Kind \n{\n}\n");
}

#[test]
fn consts_together_then_struct() {
    let mut m = Module::new();
    m.add_const("A", "u8", lit(Literal::U8(1)));
    m.add_const("B", "u8", lit(Literal::U8(2)));
    m.add_struct("S");
    assert_eq!(
        m.to_string(),
        "const A: u8 = 1u8;\nconst B: u8 = 2u8;\n\nstruct S {\n}\n"
    );
}

#[test]
fn separator_rule_looks_at_adjacent_pairs() {
    let mut m = Module::new();
    m.add_static("X", "u8", lit(Literal::U8(1))).set_public(true);
    m.add_static("Y", "u8", lit(Literal::U8(2)));
    m.add_const("Z", "u8", lit(Literal::U8(3)));
    m.add_function("f");
    m.add_function("g");
    assert_eq!(
        m.to_string(),
        "pub static X: u8 = 1u8;\nstatic Y: u8 = 2u8;\n\nconst Z: u8 = 3u8;\n\nfn f();\n\nfn g();\n"
    );
}

#[test]
fn empty_module() {
    assert_eq!(Module::new().to_string(), "");
}

#[test]
fn nested_submodules_indent_each_level() {
    let mut m = Module::new();
    let a = m.add_submodule("a");
    a.set_public(true);
    let b = a.add_submodule("b");
    b.add_struct("S").add_field("x", "u8");
    b.add_const("K", "u8", lit(Literal::U8(0)));
    assert_eq!(
        m.to_string(),
        "pub mod a {\n    mod b {\n        struct S {\n            x: u8,\n        }\n\n        const K: u8 = 0u8;\n    }\n}\n"
    );
}

#[test]
fn module_renders_in_insertion_order() {
    let mut m = Module::new();
    m.add_enum("E");
    m.add_trait("T");
    m.add_impl("S");
    assert_eq!(m.to_string(), "enum E \n{\n}\n\ntrait T {\n}\n\nimpl S {\n}\n");
    assert_eq!(m.to_string(), m.to_code_string());
}

#[test]
fn formatter_indents_lines_that_open_at_line_start() {
    let mut fmt = Formatter::new(String::new());
    assert!(fmt.is_start_of_line());
    fmt.write_str("a");
    assert!(!fmt.is_start_of_line());
    fmt.indent(|f: &mut Formatter| f.write_str("b\nc\n\nd\n"));
    fmt.write_str("e\n");
    assert!(fmt.is_start_of_line());
    assert_eq!(fmt.into_string(), "ab\n    c\n\n    d\ne\n");
}

#[test]
fn formatter_block_and_spaces() {
    let mut fmt = Formatter::new("x ".to_string());
    fmt.write_block(|f: &mut Formatter| {
        f.write_str("y;\n");
        f.push_spaces();
    });
    assert_eq!(fmt.into_string(), "x {\n    y;\n    }\n");
}

#[test]
fn formatter_on_a_buffer_ending_a_line() {
    let mut fmt = Formatter::new("head\n".to_string());
    assert!(fmt.is_start_of_line());
    fmt.indent(|f: &mut Formatter| f.write_str("z"));
    assert_eq!(fmt.into_string(), "head\n    z");
}
