use codegen_rs::expr::make::{
    array, array_of, binding, call, cast, init_struct, init_tuple_struct, str, tuple, tuple_of,
};
use codegen_rs::expr::{
    Array, BinaryOperation, Binding, Call, Cast, Expr, Literal, Operator, StructInitializer,
    Tuple, TupleStructInitializer, UnaryOperation,
};
use codegen_rs::generator::GenerateCode;

fn lit(l: Literal) -> Expr {
    Expr::Literal(Box::new(l))
}

fn var(name: &str) -> Expr {
    Expr::Binding(Box::new(Binding::new(name)))
}

fn code(e: Expr) -> String {
    e.to_code_string()
}

#[test]
fn binary_operation_of_two_i32() {
    let e = BinaryOperation::new(Operator::Plus, lit(Literal::I32(1)), lit(Literal::I32(2)));
    assert_eq!(e.to_code_string(), "(1i32 + 2i32)");
}

#[test]
fn binary_operation_is_always_parenthesized() {
    let inner = BinaryOperation::new(Operator::Star, var("a"), var("b"));
    let e = BinaryOperation::new(
        Operator::Plus,
        Expr::BinaryOperation(Box::new(inner)),
        var("c"),
    );
    assert_eq!(e.to_code_string(), "((a * b) + c)");
}

#[test]
fn tuple_with_one_bool() {
    let t = Tuple::new().add(lit(Literal::Bool(true)));
    assert_eq!(t.to_code_string(), "(true,)");
}

#[test]
fn tuple_layouts() {
    assert_eq!(Tuple::new().to_code_string(), "()");
    assert_eq!(Tuple::new().multiline(true).to_code_string(), "()");
    let two = Tuple::new().add(lit(Literal::I32(1))).add(lit(Literal::I32(2)));
    assert_eq!(two.to_code_string(), "(1i32, 2i32)");
    let two = two.multiline(true);
    assert_eq!(two.to_code_string(), "(\n    1i32,\n    2i32,\n)");
    let one = Tuple::new().multiline(true).add(lit(Literal::Bool(true)));
    assert_eq!(one.to_code_string(), "(\n    true,\n)");
}

#[test]
fn multiline_flag_decides_newlines() {
    let inline = Tuple::new().add(var("a")).add(var("b")).add(var("c"));
    assert!(!inline.to_code_string().contains('\n'));
    let broken = Tuple::new().multiline(true).add(var("a"));
    assert!(broken.to_code_string().contains('\n'));
    let inline = Array::new().add(var("a")).add(var("b"));
    assert!(!inline.to_code_string().contains('\n'));
    let broken = Array::new().multiline(true).add(var("a"));
    assert!(broken.to_code_string().contains('\n'));
}

#[test]
fn array_layouts() {
    assert_eq!(Array::new().to_code_string(), "[]");
    let one = Array::new().add(lit(Literal::U8(7)));
    assert_eq!(one.to_code_string(), "[7u8]");
    let two = one.add(lit(Literal::U8(8)));
    assert_eq!(two.to_code_string(), "[7u8, 8u8]");
    assert_eq!(two.multiline(true).to_code_string(), "[\n    7u8,\n    8u8,\n]");
}

#[test]
fn nested_multiline_indents_each_level() {
    let inner = Array::new().multiline(true).add(var("x"));
    let outer = Tuple::new()
        .multiline(true)
        .add(Expr::Array(Box::new(inner)))
        .add(var("y"));
    assert_eq!(outer.to_code_string(), "(\n    [\n        x,\n    ],\n    y,\n)");
}

#[test]
fn call_arguments() {
    assert_eq!(Call::new("f").to_code_string(), "f()");
    let c = Call::new("f").arg(lit(Literal::I32(1))).arg(var("x"));
    assert_eq!(c.to_code_string(), "f(1i32, x)");
    let one = Call::new("g").arg(var("x"));
    assert_eq!(one.to_code_string(), "g(x)");
}

#[test]
fn unary_operation_has_no_space() {
    let e = UnaryOperation::new(Operator::Minus, var("x"));
    assert_eq!(e.to_code_string(), "-x");
    let e = UnaryOperation::new(Operator::Not, var("done"));
    assert_eq!(e.to_code_string(), "!done");
}

#[test]
fn cast_expression() {
    let c = Cast::new(var("x"), "u8");
    assert_eq!(c.to_code_string(), "(x as u8)");
    assert_eq!(code(var("y").cast("i64")), "(y as i64)");
}

#[test]
fn struct_initializer_layouts() {
    assert_eq!(StructInitializer::new("S").to_code_string(), "S {}");
    assert_eq!(StructInitializer::new("S").multiline(true).to_code_string(), "S {}");
    let s = StructInitializer::new("S").field("a", lit(Literal::U8(1))).field_auto("b");
    assert_eq!(s.to_code_string(), "S { a: 1u8, b }");
    let s = s.multiline(true);
    assert_eq!(s.to_code_string(), "S {\n    a: 1u8,\n    b,\n}");
}

#[test]
fn tuple_struct_initializer_follows_tuple_rules() {
    assert_eq!(TupleStructInitializer::new("P").to_code_string(), "P()");
    let one = TupleStructInitializer::new("P").arg(lit(Literal::U8(1)));
    assert_eq!(one.to_code_string(), "P(1u8,)");
    let two = one.arg(lit(Literal::U8(2)));
    assert_eq!(two.to_code_string(), "P(1u8, 2u8)");
    assert_eq!(two.multiline(true).to_code_string(), "P(\n    1u8,\n    2u8,\n)");
}

#[test]
fn numeric_literal_suffixes() {
    assert_eq!(code(lit(Literal::I8(-5))), "-5i8");
    assert_eq!(code(lit(Literal::U8(255))), "255u8");
    assert_eq!(code(lit(Literal::I16(-300))), "-300i16");
    assert_eq!(code(lit(Literal::U16(0))), "0u16");
    assert_eq!(code(lit(Literal::I32(42))), "42i32");
    assert_eq!(code(lit(Literal::U32(4000000000))), "4000000000u32");
    assert_eq!(code(lit(Literal::I64(-1))), "-1i64");
    assert_eq!(code(lit(Literal::U64(10))), "10u64");
    assert_eq!(
        code(lit(Literal::I128(i128::MIN))),
        "-170141183460469231731687303715884105728i128"
    );
    assert_eq!(
        code(lit(Literal::U128(u128::MAX))),
        "340282366920938463463374607431768211455u128"
    );
}

#[test]
fn bool_char_and_string_literals() {
    assert_eq!(code(lit(Literal::Bool(false))), "false");
    assert_eq!(code(lit(Literal::Char('a'))), "'a'");
    assert_eq!(code(lit(Literal::Char('\n'))), "'\\n'");
    assert_eq!(code(lit(Literal::Char('\''))), "'\\''");
    assert_eq!(code(lit(Literal::Str("hi".to_string()))), "\"hi\"");
    assert_eq!(code(lit(Literal::Str("a\"b\n".to_string()))), "\"a\\\"b\\n\"");
}

#[test]
fn operator_tokens() {
    let all = [
        (Operator::Plus, "+"),
        (Operator::Minus, "-"),
        (Operator::Star, "*"),
        (Operator::Slash, "/"),
        (Operator::Percent, "%"),
        (Operator::Not, "!"),
        (Operator::Or, "|"),
        (Operator::And, "&"),
        (Operator::Xor, "^"),
        (Operator::DoubleOr, "||"),
        (Operator::DoubleAnd, "&&"),
        (Operator::ShiftLeft, "<<"),
        (Operator::ShiftRight, ">>"),
        (Operator::Equals, "=="),
        (Operator::Less, "<"),
        (Operator::LessEqual, "<="),
        (Operator::Greater, ">"),
        (Operator::GreaterEqual, ">="),
    ];
    for (op, token) in all {
        assert_eq!(op.as_str(), token);
    }
}

#[test]
fn construction_helpers() {
    assert_eq!(code(binding("x")), "x");
    assert_eq!(code(str("s")), "\"s\"");
    assert_eq!(code(cast(binding("x"), "u32")), "(x as u32)");
    assert_eq!(call("f").arg(binding("a")).to_code_string(), "f(a)");
    assert_eq!(tuple().to_code_string(), "()");
    assert_eq!(tuple_of(vec![binding("a"), binding("b")]).to_code_string(), "(a, b)");
    assert_eq!(array().to_code_string(), "[]");
    assert_eq!(array_of(vec![binding("a")]).to_code_string(), "[a]");
    assert_eq!(init_struct("S").field_auto("x").to_code_string(), "S { x }");
    assert_eq!(init_tuple_struct("W").arg(binding("v")).to_code_string(), "W(v,)");
}

#[test]
fn rendering_twice_gives_identical_text() {
    let t = Tuple::new()
        .multiline(true)
        .add(lit(Literal::Str("x".to_string())))
        .add(var("y"));
    assert_eq!(t.to_code_string(), t.to_code_string());
}
