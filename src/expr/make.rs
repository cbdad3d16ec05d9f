use vstd::prelude::*;
use vstd::string::*;

use crate::expr::{
    str_debug, Array, Binding, Call, Expr, Literal, StructInitializer, Tuple,
    TupleStructInitializer,
};

verus! {

/// `expr` converted to `target_type`.
pub fn cast(expr: Expr, target_type: &str) -> (r: Expr)
    ensures
        r.text() == "("@ + expr.text() + " as "@ + target_type@ + ")"@,
        forall|w: nat| r.fits_in(w) == expr.fits_in(w),
{
    expr.cast(target_type)
}

/// The binding `name`, as an expression.
pub fn binding(name: &str) -> (r: Expr)
    ensures
        r.text() == name@,
{
    Expr::Binding(Box::new(Binding::new(name)))
}

/// The string literal holding `value`.
pub fn str(value: &str) -> (r: Expr)
    ensures
        r.text() == str_debug(value@),
{
    Expr::Literal(Box::new(Literal::Str(String::from_str(value))))
}

/// A call of `name`, with no arguments yet.
pub fn call(name: &str) -> (r: Call)
    ensures
        r.name() == name@,
        r.args() == Seq::<Expr>::empty(),
{
    Call::new(name)
}

/// An empty inline tuple.
pub fn tuple() -> (r: Tuple)
    ensures
        !r.is_multiline(),
        r.values() == Seq::<Expr>::empty(),
{
    Tuple::new()
}

/// An inline tuple of `values`.
pub fn tuple_of(values: Vec<Expr>) -> (r: Tuple)
    ensures
        !r.is_multiline(),
        r.values() == values@,
{
    Tuple { multiline: false, values }
}

/// An empty inline array.
pub fn array() -> (r: Array)
    ensures
        !r.is_multiline(),
        r.values() == Seq::<Expr>::empty(),
{
    Array::new()
}

/// An inline array of `values`.
pub fn array_of(values: Vec<Expr>) -> (r: Array)
    ensures
        !r.is_multiline(),
        r.values() == values@,
{
    Array { multiline: false, values }
}

/// An initializer of the struct `name`, with no fields yet.
pub fn init_struct(name: &str) -> (r: StructInitializer)
    ensures
        !r.is_multiline(),
        r.name() == name@,
        r.fields() == Seq::<(String, Option<Expr>)>::empty(),
{
    StructInitializer::new(name)
}

/// An initializer of the tuple struct `name`, with no arguments yet.
pub fn init_tuple_struct(name: &str) -> (r: TupleStructInitializer)
    ensures
        r.name() == name@,
        !r.tuple().is_multiline(),
        r.tuple().values() == Seq::<Expr>::empty(),
{
    TupleStructInitializer::new(name)
}

} // verus!
