use vstd::prelude::*;
use vstd::string::*;

use crate::generator::{
    at_line_start, emit, indented, join, lemma_emit_concat, lemma_emit_indented,
    lemma_emit_line_start, lemma_join_push, lemma_join_single_line, lemma_single_line_concat,
    lemma_terminated_push, single_line, terminated, Formatter, GenerateCode, INDENT_UNIT,
};
use crate::number::{decimal, signed_decimal, signed_text, unsigned_text};

pub mod make;

pub use self::make::{
    array, array_of, binding, call, cast, init_struct, init_tuple_struct, str, tuple, tuple_of,
};

verus! {

/// An expression.
#[non_exhaustive]
pub enum Expr {
    Binding(Box<Binding>),
    Literal(Box<Literal>),
    Call(Box<Call>),
    UnaryOperation(Box<UnaryOperation>),
    BinaryOperation(Box<BinaryOperation>),
    Cast(Box<Cast>),
    Tuple(Box<Tuple>),
    Array(Box<Array>),
    StructInitializer(Box<StructInitializer>),
    TupleStructInitializer(Box<TupleStructInitializer>),
}

/// The texts of a sequence of expressions, in order.
pub open spec fn texts(s: Seq<Expr>) -> Seq<Seq<char>>
    decreases s,
{
    if s.len() == 0 {
        Seq::empty()
    } else {
        texts(s.subrange(0, s.len() - 1)).push(s[s.len() - 1].text())
    }
}

/// Every expression of `s` renders at indentation `width`.
pub open spec fn all_fit(s: Seq<Expr>, width: nat) -> bool
    decreases s,
{
    if s.len() == 0 {
        true
    } else {
        all_fit(s.subrange(0, s.len() - 1), width) && s[s.len() - 1].fits_in(width)
    }
}

/// A list renders at indentation `width`: one level deeper when laid out one per line.
pub open spec fn list_fits(s: Seq<Expr>, multiline: bool, width: nat) -> bool {
    if multiline && s.len() > 0 {
        width + INDENT_UNIT <= usize::MAX && all_fit(s, (width + INDENT_UNIT) as nat)
    } else {
        all_fit(s, width)
    }
}

/// One field of a struct initializer: `name: value`, or the bare name.
pub open spec fn field_text(f: (String, Option<Expr>)) -> Seq<char>
    decreases f,
{
    match f.1 {
        Some(v) => f.0@ + ": "@ + v.text(),
        None => f.0@,
    }
}

/// The texts of the fields of a struct initializer, in order.
pub open spec fn field_texts(s: Seq<(String, Option<Expr>)>) -> Seq<Seq<char>>
    decreases s,
{
    if s.len() == 0 {
        Seq::empty()
    } else {
        field_texts(s.subrange(0, s.len() - 1)).push(field_text(s[s.len() - 1]))
    }
}

/// The value of a field, if any, renders at indentation `width`.
pub open spec fn field_fits(f: (String, Option<Expr>), width: nat) -> bool
    decreases f,
{
    match f.1 {
        Some(v) => v.fits_in(width),
        None => true,
    }
}

/// Every field value of `s` renders at indentation `width`.
pub open spec fn fields_fit(s: Seq<(String, Option<Expr>)>, width: nat) -> bool
    decreases s,
{
    if s.len() == 0 {
        true
    } else {
        fields_fit(s.subrange(0, s.len() - 1), width) && field_fits(s[s.len() - 1], width)
    }
}

/// The text of a comma-separated list in brackets: inline, or one element per line, each
/// followed by a comma. `single_comma` adds a comma after a lone inline element.
pub open spec fn bracketed(
    open: Seq<char>,
    close: Seq<char>,
    parts: Seq<Seq<char>>,
    multiline: bool,
    single_comma: bool,
) -> Seq<char> {
    if parts.len() == 0 {
        open + close
    } else if multiline {
        open + "\n"@ + indented(terminated(parts, ",\n"@)) + close
    } else {
        open + join(parts, ", "@) + (if single_comma && parts.len() == 1 {
            ","@
        } else {
            Seq::empty()
        }) + close
    }
}

pub proof fn lemma_texts(s: Seq<Expr>)
    ensures
        texts(s).len() == s.len(),
        forall|i: int| 0 <= i < s.len() ==> #[trigger] texts(s)[i] == s[i].text(),
    decreases s.len(),
{
    if s.len() > 0 {
        lemma_texts(s.subrange(0, s.len() - 1));
    }
}

pub proof fn lemma_texts_take(s: Seq<Expr>, i: int)
    requires
        0 <= i < s.len(),
    ensures
        texts(s.take(i + 1)) == texts(s.take(i)).push(s[i].text()),
        texts(s.take(i)).len() == i,
{
    assert(s.take(i + 1).subrange(0, i) =~= s.take(i));
    lemma_texts(s.take(i));
}

pub proof fn lemma_all_fit(s: Seq<Expr>, width: nat, i: int)
    requires
        all_fit(s, width),
        0 <= i < s.len(),
    ensures
        s[i].fits_in(width),
    decreases s.len(),
{
    if i < s.len() - 1 {
        lemma_all_fit(s.subrange(0, s.len() - 1), width, i);
    }
}

pub proof fn lemma_field_texts_take(s: Seq<(String, Option<Expr>)>, i: int)
    requires
        0 <= i < s.len(),
    ensures
        field_texts(s.take(i + 1)) == field_texts(s.take(i)).push(field_text(s[i])),
        field_texts(s.take(i)).len() == i,
    decreases i,
{
    assert(s.take(i + 1).subrange(0, i) =~= s.take(i));
    if i > 0 {
        lemma_field_texts_take(s, i - 1);
        assert(s.take(i).subrange(0, i - 1) =~= s.take(i - 1));
    }
}

pub proof fn lemma_fields_fit(s: Seq<(String, Option<Expr>)>, width: nat, i: int)
    requires
        fields_fit(s, width),
        0 <= i < s.len(),
    ensures
        field_fits(s[i], width),
    decreases s.len(),
{
    if i < s.len() - 1 {
        lemma_fields_fit(s.subrange(0, s.len() - 1), width, i);
    }
}

impl Expr {
    /// The expression's text at indentation zero.
    pub open spec fn text(&self) -> Seq<char>
        decreases self,
    {
        match self {
            Expr::Binding(b) => b.text(),
            Expr::Literal(l) => l.text(),
            Expr::Call(c) => c.text(),
            Expr::UnaryOperation(u) => u.text(),
            Expr::BinaryOperation(b) => b.text(),
            Expr::Cast(c) => c.text(),
            Expr::Tuple(t) => t.text(),
            Expr::Array(a) => a.text(),
            Expr::StructInitializer(s) => s.text(),
            Expr::TupleStructInitializer(t) => t.text(),
        }
    }

    /// The expression renders at indentation `width` without the indentation overflowing.
    pub open spec fn fits_in(&self, width: nat) -> bool
        decreases self,
    {
        match self {
            Expr::Binding(_) => true,
            Expr::Literal(_) => true,
            Expr::Call(c) => c.fits_in(width),
            Expr::UnaryOperation(u) => u.fits_in(width),
            Expr::BinaryOperation(b) => b.fits_in(width),
            Expr::Cast(c) => c.fits_in(width),
            Expr::Tuple(t) => t.fits_in(width),
            Expr::Array(a) => a.fits_in(width),
            Expr::StructInitializer(s) => s.fits_in(width),
            Expr::TupleStructInitializer(t) => t.fits_in(width),
        }
    }

    /// Appends the expression's text at the formatter's indentation.
    pub fn render(&self, fmt: &mut Formatter)
        requires
            old(fmt).wf(),
            self.fits_in(old(fmt).width()),
        ensures
            final(fmt).wf(),
            final(fmt).text() == emit(old(fmt).text(), old(fmt).width(), self.text()),
            final(fmt).width() == old(fmt).width(),
        decreases self,
    {
        match self {
            Expr::Binding(b) => b.render(fmt),
            Expr::Literal(l) => l.render(fmt),
            Expr::Call(c) => c.render(fmt),
            Expr::UnaryOperation(u) => u.render(fmt),
            Expr::BinaryOperation(b) => b.render(fmt),
            Expr::Cast(c) => c.render(fmt),
            Expr::Tuple(t) => t.render(fmt),
            Expr::Array(a) => a.render(fmt),
            Expr::StructInitializer(s) => s.render(fmt),
            Expr::TupleStructInitializer(t) => t.render(fmt),
        }
    }

    /// This expression converted to `target_type`.
    pub fn cast(self, target_type: &str) -> (r: Self)
        ensures
            r.text() == "("@ + self.text() + " as "@ + target_type@ + ")"@,
            forall|w: nat| r.fits_in(w) == self.fits_in(w),
    {
        Expr::Cast(Box::new(Cast::new(self, target_type)))
    }
}

impl GenerateCode for Expr {
    open spec fn code(&self) -> Seq<char> {
        self.text()
    }

    open spec fn fits(&self, width: nat) -> bool {
        self.fits_in(width)
    }

    fn generate(&self, fmt: &mut Formatter) {
        self.render(fmt)
    }
}

/// Appends `open`, the values separated by commas (inline, or one per line one level deeper),
/// and `close`.
fn render_list(
    fmt: &mut Formatter,
    open: &str,
    close: &str,
    values: &Vec<Expr>,
    multiline: bool,
    single_comma: bool,
)
    requires
        old(fmt).wf(),
        list_fits(values@, multiline, old(fmt).width()),
    ensures
        final(fmt).wf(),
        final(fmt).text() == emit(
            old(fmt).text(),
            old(fmt).width(),
            bracketed(open@, close@, texts(values@), multiline, single_comma),
        ),
        final(fmt).width() == old(fmt).width(),
    decreases values@,
{
    let ghost t0 = fmt.text();
    let ghost w = fmt.width();
    let n = values.len();
    proof {
        lemma_texts(values@);
        reveal_strlit("\n");
        reveal_strlit(",\n");
    }
    if n == 0 {
        fmt.write_str(open);
        fmt.write_str(close);
        proof {
            lemma_emit_concat(t0, w, open@, close@);
        }
        return;
    }
    fmt.write_str(open);
    let ghost mut acc: Seq<char> = open@;
    if multiline {
        fmt.write_str("\n");
        proof {
            lemma_emit_concat(t0, w, acc, "\n"@);
            acc = acc + "\n"@;
            lemma_emit_line_start(t0, w, acc);
        }
        let ghost t1 = fmt.text();
        let ghost inner = (w + INDENT_UNIT) as nat;
        fmt.enter();
        let mut i: usize = 0;
        while i < n
            invariant
                fmt.wf(),
                fmt.width() == inner,
                at_line_start(t1),
                i <= n,
                n == values@.len(),
                all_fit(values@, inner),
                fmt.text() == emit(t1, inner, terminated(texts(values@.take(i as int)), ",\n"@)),
            decreases n - i,
        {
            proof {
                lemma_all_fit(values@, inner, i as int);
            }
            let ghost before = terminated(texts(values@.take(i as int)), ",\n"@);
            values[i].render(fmt);
            fmt.write_str(",\n");
            proof {
                let x = values@[i as int].text();
                lemma_emit_concat(t1, inner, before, x);
                lemma_emit_concat(t1, inner, before + x, ",\n"@);
                lemma_texts_take(values@, i as int);
                lemma_terminated_push(texts(values@.take(i as int)), x, ",\n"@);
                assert(before + x + ",\n"@ =~= terminated(
                    texts(values@.take(i + 1)),
                    ",\n"@,
                ));
            }
            i = i + 1;
        }
        fmt.leave();
        proof {
            assert(values@.take(n as int) =~= values@);
            let body = terminated(texts(values@), ",\n"@);
            lemma_emit_indented(t1, w, body);
            lemma_emit_concat(t0, w, acc, indented(body));
            acc = acc + indented(body);
        }
    } else {
        let mut i: usize = 0;
        while i < n
            invariant
                fmt.wf(),
                fmt.width() == w,
                i <= n,
                n == values@.len(),
                all_fit(values@, w),
                acc == open@ + join(texts(values@.take(i as int)), ", "@),
                fmt.text() == emit(t0, w, acc),
            decreases n - i,
        {
            proof {
                lemma_all_fit(values@, w, i as int);
                lemma_texts_take(values@, i as int);
                lemma_join_push(texts(values@.take(i as int)), values@[i as int].text(), ", "@);
            }
            if i > 0 {
                fmt.write_str(", ");
                proof {
                    lemma_emit_concat(t0, w, acc, ", "@);
                    acc = acc + ", "@;
                }
            }
            values[i].render(fmt);
            proof {
                let x = values@[i as int].text();
                lemma_emit_concat(t0, w, acc, x);
                acc = acc + x;
                assert(acc =~= open@ + join(texts(values@.take(i + 1)), ", "@));
            }
            i = i + 1;
        }
        proof {
            assert(values@.take(n as int) =~= values@);
        }
        if single_comma && n == 1 {
            fmt.write_str(",");
            proof {
                lemma_emit_concat(t0, w, acc, ","@);
                acc = acc + ","@;
            }
        } else {
            proof {
                assert(acc =~= acc + Seq::<char>::empty());
            }
        }
    }
    fmt.write_str(close);
    proof {
        lemma_emit_concat(t0, w, acc, close@);
        assert(acc + close@ =~= bracketed(open@, close@, texts(values@), multiline, single_comma));
    }
}

/// A name bound in the surrounding code, rendered verbatim.
pub struct Binding {
    name: String,
}

/// A literal value with its exact type.
#[non_exhaustive]
pub enum Literal {
    Bool(bool),
    Char(char),
    I8(i8),
    U8(u8),
    I16(i16),
    U16(u16),
    I32(i32),
    U32(u32),
    I64(i64),
    U64(u64),
    I128(i128),
    U128(u128),
    Str(String),
}

/// What `{:?}` writes for a character: the character quoted and escaped.
pub uninterp spec fn char_debug(c: char) -> Seq<char>;

/// What `{:?}` writes for a string: the string quoted and escaped.
pub uninterp spec fn str_debug(s: Seq<char>) -> Seq<char>;

/// Relies on `<char as Debug>::fmt`: the character quoted, escaped by `char::escape_debug`,
/// which writes a newline as the two characters `\n`.
#[verifier::external_body]
fn quote_char(c: char) -> (r: String)
    ensures
        r@ == char_debug(c),
        forall|i: int| 0 <= i < r@.len() ==> r@[i] != '\n',
{
    format!("{:?}", c)
}

/// Relies on `<str as Debug>::fmt`: the string quoted, escaped by `char::escape_debug`,
/// which writes a newline as the two characters `\n`.
#[verifier::external_body]
fn quote_str(s: &str) -> (r: String)
    ensures
        r@ == str_debug(s@),
        forall|i: int| 0 <= i < r@.len() ==> r@[i] != '\n',
{
    format!("{:?}", s)
}

impl Literal {
    /// The literal's text: its value, followed by its type's suffix for a number.
    pub open spec fn text(&self) -> Seq<char> {
        match self {
            Literal::Bool(v) => if *v {
                "true"@
            } else {
                "false"@
            },
            Literal::Char(v) => char_debug(*v),
            Literal::I8(v) => signed_decimal(*v as int) + "i8"@,
            Literal::U8(v) => decimal(*v as nat) + "u8"@,
            Literal::I16(v) => signed_decimal(*v as int) + "i16"@,
            Literal::U16(v) => decimal(*v as nat) + "u16"@,
            Literal::I32(v) => signed_decimal(*v as int) + "i32"@,
            Literal::U32(v) => decimal(*v as nat) + "u32"@,
            Literal::I64(v) => signed_decimal(*v as int) + "i64"@,
            Literal::U64(v) => decimal(*v as nat) + "u64"@,
            Literal::I128(v) => signed_decimal(*v as int) + "i128"@,
            Literal::U128(v) => decimal(*v as nat) + "u128"@,
            Literal::Str(v) => str_debug(v@),
        }
    }
}

/// A call of a named function with positional arguments.
pub struct Call {
    name: String,
    args: Vec<Expr>,
}

/// An operator, each written as a fixed token.
#[non_exhaustive]
#[derive(Clone, Copy, PartialEq, Eq, Structural)]
pub enum Operator {
    /// `+`
    Plus,
    /// `-`
    Minus,
    /// `*`
    Star,
    /// `/`
    Slash,
    /// `%`
    Percent,
    /// `!`
    Not,
    /// `|`
    Or,
    /// `&`
    And,
    /// `^`
    Xor,
    /// `||`
    DoubleOr,
    /// `&&`
    DoubleAnd,
    /// `<<`
    ShiftLeft,
    /// `>>`
    ShiftRight,
    /// `==`
    Equals,
    /// `<`
    Less,
    /// `<=`
    LessEqual,
    /// `>`
    Greater,
    /// `>=`
    GreaterEqual,
}

impl Operator {
    /// The operator's token.
    pub open spec fn token(self) -> Seq<char> {
        match self {
            Operator::Plus => "+"@,
            Operator::Minus => "-"@,
            Operator::Star => "*"@,
            Operator::Slash => "/"@,
            Operator::Percent => "%"@,
            Operator::Not => "!"@,
            Operator::Or => "|"@,
            Operator::And => "&"@,
            Operator::Xor => "^"@,
            Operator::DoubleOr => "||"@,
            Operator::DoubleAnd => "&&"@,
            Operator::ShiftLeft => "<<"@,
            Operator::ShiftRight => ">>"@,
            Operator::Equals => "=="@,
            Operator::Less => "<"@,
            Operator::LessEqual => "<="@,
            Operator::Greater => ">"@,
            Operator::GreaterEqual => ">="@,
        }
    }
}

/// An operator applied to one operand: `OPoperand`.
pub struct UnaryOperation {
    operator: Operator,
    expr: Expr,
}

/// An operator between two operands, always parenthesized: `(left OP right)`.
pub struct BinaryOperation {
    operator: Operator,
    left: Expr,
    right: Expr,
}

/// A conversion: `(expr as TYPE)`.
pub struct Cast {
    expr: Expr,
    ty: String,
}

/// A tuple expression.
pub struct Tuple {
    multiline: bool,
    values: Vec<Expr>,
}

/// An array expression.
pub struct Array {
    multiline: bool,
    values: Vec<Expr>,
}

/// A struct built from named fields, each with a value or by field-init shorthand.
pub struct StructInitializer {
    multiline: bool,
    name: String,
    fields: Vec<(String, Option<Expr>)>,
}

/// A tuple struct built from positional arguments: the name, then a tuple.
pub struct TupleStructInitializer {
    name: String,
    tuple: Tuple,
}


/// Appends `digits` and then `suffix`.
fn render_number(fmt: &mut Formatter, digits: String, suffix: &str)
    requires
        old(fmt).wf(),
    ensures
        final(fmt).wf(),
        final(fmt).text() == emit(old(fmt).text(), old(fmt).width(), digits@ + suffix@),
        final(fmt).width() == old(fmt).width(),
{
    let ghost t0 = fmt.text();
    fmt.write_str(digits.as_str());
    fmt.write_str(suffix);
    proof {
        lemma_emit_concat(t0, fmt.width(), digits@, suffix@);
    }
}

impl Binding {
    /// The bound name.
    pub closed spec fn name(&self) -> Seq<char> {
        self.name@
    }

    /// The name, verbatim.
    pub open spec fn text(&self) -> Seq<char> {
        self.name()
    }

    pub fn new(name: &str) -> (r: Self)
        ensures
            r.name() == name@,
    {
        Binding { name: String::from_str(name) }
    }

    /// Appends the name.
    pub fn render(&self, fmt: &mut Formatter)
        requires
            old(fmt).wf(),
        ensures
            final(fmt).wf(),
            final(fmt).text() == emit(old(fmt).text(), old(fmt).width(), self.text()),
            final(fmt).width() == old(fmt).width(),
    {
        fmt.write_str(self.name.as_str());
    }
}

impl Literal {
    /// Appends the literal's text.
    pub fn render(&self, fmt: &mut Formatter)
        requires
            old(fmt).wf(),
        ensures
            final(fmt).wf(),
            final(fmt).text() == emit(old(fmt).text(), old(fmt).width(), self.text()),
            final(fmt).width() == old(fmt).width(),
    {
        match self {
            Literal::Bool(v) => {
                if *v {
                    fmt.write_str("true");
                } else {
                    fmt.write_str("false");
                }
            },
            Literal::Char(v) => {
                let q = quote_char(*v);
                fmt.write_str(q.as_str());
            },
            Literal::I8(v) => render_number(fmt, signed_text(*v as i128), "i8"),
            Literal::U8(v) => render_number(fmt, unsigned_text(*v as u128), "u8"),
            Literal::I16(v) => render_number(fmt, signed_text(*v as i128), "i16"),
            Literal::U16(v) => render_number(fmt, unsigned_text(*v as u128), "u16"),
            Literal::I32(v) => render_number(fmt, signed_text(*v as i128), "i32"),
            Literal::U32(v) => render_number(fmt, unsigned_text(*v as u128), "u32"),
            Literal::I64(v) => render_number(fmt, signed_text(*v as i128), "i64"),
            Literal::U64(v) => render_number(fmt, unsigned_text(*v as u128), "u64"),
            Literal::I128(v) => render_number(fmt, signed_text(*v), "i128"),
            Literal::U128(v) => render_number(fmt, unsigned_text(*v), "u128"),
            Literal::Str(v) => {
                let q = quote_str(v.as_str());
                fmt.write_str(q.as_str());
            },
        }
    }
}

impl Call {
    /// The called function's name.
    pub closed spec fn name(&self) -> Seq<char> {
        self.name@
    }

    /// The arguments, in order.
    pub closed spec fn args(&self) -> Seq<Expr> {
        self.args@
    }

    /// `name(arg, arg, ...)`.
    pub open spec fn text(&self) -> Seq<char>
        decreases self,
    {
        self.name() + bracketed("("@, ")"@, texts(self.args()), false, false)
    }

    pub open spec fn fits_in(&self, width: nat) -> bool
        decreases self,
    {
        all_fit(self.args(), width)
    }

    pub fn new(name: &str) -> (r: Self)
        ensures
            r.name() == name@,
            r.args() == Seq::<Expr>::empty(),
    {
        Call { name: String::from_str(name), args: Vec::new() }
    }

    /// Adds an argument after the others.
    pub fn arg(self, value: Expr) -> (r: Self)
        ensures
            r.name() == self.name(),
            r.args() == self.args().push(value),
    {
        let mut c = self;
        c.args.push(value);
        c
    }

    pub fn render(&self, fmt: &mut Formatter)
        requires
            old(fmt).wf(),
            self.fits_in(old(fmt).width()),
        ensures
            final(fmt).wf(),
            final(fmt).text() == emit(old(fmt).text(), old(fmt).width(), self.text()),
            final(fmt).width() == old(fmt).width(),
        decreases self,
    {
        let ghost t0 = fmt.text();
        fmt.write_str(self.name.as_str());
        render_list(fmt, "(", ")", &self.args, false, false);
        proof {
            lemma_emit_concat(
                t0,
                fmt.width(),
                self.name@,
                bracketed("("@, ")"@, texts(self.args@), false, false),
            );
        }
    }
}

impl Operator {
    /// The operator's token.
    pub fn as_str(self) -> (r: &'static str)
        ensures
            r@ == self.token(),
    {
        match self {
            Operator::Plus => "+",
            Operator::Minus => "-",
            Operator::Star => "*",
            Operator::Slash => "/",
            Operator::Percent => "%",
            Operator::Not => "!",
            Operator::Or => "|",
            Operator::And => "&",
            Operator::Xor => "^",
            Operator::DoubleOr => "||",
            Operator::DoubleAnd => "&&",
            Operator::ShiftLeft => "<<",
            Operator::ShiftRight => ">>",
            Operator::Equals => "==",
            Operator::Less => "<",
            Operator::LessEqual => "<=",
            Operator::Greater => ">",
            Operator::GreaterEqual => ">=",
        }
    }
}

impl UnaryOperation {
    /// The operator.
    pub closed spec fn operator(&self) -> Operator {
        self.operator
    }

    /// The operand.
    pub closed spec fn operand(&self) -> Expr {
        self.expr
    }

    /// `OPoperand`.
    pub open spec fn text(&self) -> Seq<char>
        decreases self,
    {
        self.operator().token() + self.operand().text()
    }

    pub open spec fn fits_in(&self, width: nat) -> bool
        decreases self,
    {
        self.operand().fits_in(width)
    }

    pub fn new(operator: Operator, expr: Expr) -> (r: Self)
        ensures
            r.operator() == operator,
            r.operand() == expr,
    {
        UnaryOperation { operator, expr }
    }

    pub fn render(&self, fmt: &mut Formatter)
        requires
            old(fmt).wf(),
            self.fits_in(old(fmt).width()),
        ensures
            final(fmt).wf(),
            final(fmt).text() == emit(old(fmt).text(), old(fmt).width(), self.text()),
            final(fmt).width() == old(fmt).width(),
        decreases self,
    {
        let ghost t0 = fmt.text();
        fmt.write_str(self.operator.as_str());
        self.expr.render(fmt);
        proof {
            lemma_emit_concat(t0, fmt.width(), self.operator.token(), self.expr.text());
        }
    }
}

impl BinaryOperation {
    /// The operator.
    pub closed spec fn operator(&self) -> Operator {
        self.operator
    }

    /// The left operand.
    pub closed spec fn left(&self) -> Expr {
        self.left
    }

    /// The right operand.
    pub closed spec fn right(&self) -> Expr {
        self.right
    }

    /// `(left OP right)`.
    pub open spec fn text(&self) -> Seq<char>
        decreases self,
    {
        "("@ + self.left().text() + " "@ + self.operator().token() + " "@ + self.right().text()
            + ")"@
    }

    pub open spec fn fits_in(&self, width: nat) -> bool
        decreases self,
    {
        self.left().fits_in(width) && self.right().fits_in(width)
    }

    pub fn new(operator: Operator, left: Expr, right: Expr) -> (r: Self)
        ensures
            r.operator() == operator,
            r.left() == left,
            r.right() == right,
    {
        BinaryOperation { operator, left, right }
    }

    pub fn render(&self, fmt: &mut Formatter)
        requires
            old(fmt).wf(),
            self.fits_in(old(fmt).width()),
        ensures
            final(fmt).wf(),
            final(fmt).text() == emit(old(fmt).text(), old(fmt).width(), self.text()),
            final(fmt).width() == old(fmt).width(),
        decreases self,
    {
        let ghost t0 = fmt.text();
        let ghost w = fmt.width();
        fmt.write_str("(");
        self.left.render(fmt);
        proof {
            lemma_emit_concat(t0, w, "("@, self.left.text());
        }
        let ghost acc = "("@ + self.left.text();
        fmt.write_str(" ");
        proof {
            lemma_emit_concat(t0, w, acc, " "@);
        }
        let ghost acc = acc + " "@;
        fmt.write_str(self.operator.as_str());
        proof {
            lemma_emit_concat(t0, w, acc, self.operator.token());
        }
        let ghost acc = acc + self.operator.token();
        fmt.write_str(" ");
        proof {
            lemma_emit_concat(t0, w, acc, " "@);
        }
        let ghost acc = acc + " "@;
        self.right.render(fmt);
        proof {
            lemma_emit_concat(t0, w, acc, self.right.text());
        }
        let ghost acc = acc + self.right.text();
        fmt.write_str(")");
        proof {
            lemma_emit_concat(t0, w, acc, ")"@);
        }
    }
}

impl Cast {
    /// The converted expression.
    pub closed spec fn operand(&self) -> Expr {
        self.expr
    }

    /// The target type.
    pub closed spec fn target_type(&self) -> Seq<char> {
        self.ty@
    }

    /// `(expr as TYPE)`.
    pub open spec fn text(&self) -> Seq<char>
        decreases self,
    {
        "("@ + self.operand().text() + " as "@ + self.target_type() + ")"@
    }

    pub open spec fn fits_in(&self, width: nat) -> bool
        decreases self,
    {
        self.operand().fits_in(width)
    }

    pub fn new(expr: Expr, target_type: &str) -> (r: Self)
        ensures
            r.operand() == expr,
            r.target_type() == target_type@,
            r.text() == "("@ + expr.text() + " as "@ + target_type@ + ")"@,
            forall|w: nat| r.fits_in(w) == expr.fits_in(w),
    {
        Cast { expr, ty: String::from_str(target_type) }
    }

    pub fn render(&self, fmt: &mut Formatter)
        requires
            old(fmt).wf(),
            self.fits_in(old(fmt).width()),
        ensures
            final(fmt).wf(),
            final(fmt).text() == emit(old(fmt).text(), old(fmt).width(), self.text()),
            final(fmt).width() == old(fmt).width(),
        decreases self,
    {
        let ghost t0 = fmt.text();
        let ghost w = fmt.width();
        fmt.write_str("(");
        self.expr.render(fmt);
        proof {
            lemma_emit_concat(t0, w, "("@, self.expr.text());
        }
        let ghost acc = "("@ + self.expr.text();
        fmt.write_str(" as ");
        proof {
            lemma_emit_concat(t0, w, acc, " as "@);
        }
        let ghost acc = acc + " as "@;
        fmt.write_str(self.ty.as_str());
        proof {
            lemma_emit_concat(t0, w, acc, self.ty@);
        }
        let ghost acc = acc + self.ty@;
        fmt.write_str(")");
        proof {
            lemma_emit_concat(t0, w, acc, ")"@);
        }
    }
}

impl Tuple {
    /// Whether the elements are laid out one per line.
    pub closed spec fn is_multiline(&self) -> bool {
        self.multiline
    }

    /// The elements, in order.
    pub closed spec fn values(&self) -> Seq<Expr> {
        self.values@
    }

    /// `()`; `(a, b)` with `(a,)` for one element; or one element per line.
    pub open spec fn text(&self) -> Seq<char>
        decreases self,
    {
        bracketed("("@, ")"@, texts(self.values()), self.is_multiline(), true)
    }

    pub open spec fn fits_in(&self, width: nat) -> bool
        decreases self,
    {
        if self.is_multiline() && self.values().len() > 0 {
            width + INDENT_UNIT <= usize::MAX && all_fit(self.values(), (width + INDENT_UNIT) as nat)
        } else {
            all_fit(self.values(), width)
        }
    }

    pub fn new() -> (r: Self)
        ensures
            !r.is_multiline(),
            r.values() == Seq::<Expr>::empty(),
    {
        Tuple { multiline: false, values: Vec::new() }
    }

    /// Chooses between the inline and the one-per-line layout.
    pub fn multiline(self, multiline: bool) -> (r: Self)
        ensures
            r.is_multiline() == multiline,
            r.values() == self.values(),
    {
        let mut t = self;
        t.multiline = multiline;
        t
    }

    /// Adds an element after the others.
    pub fn add(self, value: Expr) -> (r: Self)
        ensures
            r.is_multiline() == self.is_multiline(),
            r.values() == self.values().push(value),
    {
        let mut t = self;
        t.values.push(value);
        t
    }

    pub fn render(&self, fmt: &mut Formatter)
        requires
            old(fmt).wf(),
            self.fits_in(old(fmt).width()),
        ensures
            final(fmt).wf(),
            final(fmt).text() == emit(old(fmt).text(), old(fmt).width(), self.text()),
            final(fmt).width() == old(fmt).width(),
        decreases self,
    {
        render_list(fmt, "(", ")", &self.values, self.multiline, true);
    }
}

impl Array {
    /// Whether the elements are laid out one per line.
    pub closed spec fn is_multiline(&self) -> bool {
        self.multiline
    }

    /// The elements, in order.
    pub closed spec fn values(&self) -> Seq<Expr> {
        self.values@
    }

    /// `[]`; `[a, b]`; or one element per line.
    pub open spec fn text(&self) -> Seq<char>
        decreases self,
    {
        bracketed("["@, "]"@, texts(self.values()), self.is_multiline(), false)
    }

    pub open spec fn fits_in(&self, width: nat) -> bool
        decreases self,
    {
        if self.is_multiline() && self.values().len() > 0 {
            width + INDENT_UNIT <= usize::MAX && all_fit(self.values(), (width + INDENT_UNIT) as nat)
        } else {
            all_fit(self.values(), width)
        }
    }

    pub fn new() -> (r: Self)
        ensures
            !r.is_multiline(),
            r.values() == Seq::<Expr>::empty(),
    {
        Array { multiline: false, values: Vec::new() }
    }

    /// Chooses between the inline and the one-per-line layout.
    pub fn multiline(self, multiline: bool) -> (r: Self)
        ensures
            r.is_multiline() == multiline,
            r.values() == self.values(),
    {
        let mut a = self;
        a.multiline = multiline;
        a
    }

    /// Adds an element after the others.
    pub fn add(self, value: Expr) -> (r: Self)
        ensures
            r.is_multiline() == self.is_multiline(),
            r.values() == self.values().push(value),
    {
        let mut a = self;
        a.values.push(value);
        a
    }

    pub fn render(&self, fmt: &mut Formatter)
        requires
            old(fmt).wf(),
            self.fits_in(old(fmt).width()),
        ensures
            final(fmt).wf(),
            final(fmt).text() == emit(old(fmt).text(), old(fmt).width(), self.text()),
            final(fmt).width() == old(fmt).width(),
        decreases self,
    {
        render_list(fmt, "[", "]", &self.values, self.multiline, false);
    }
}

/// Appends one field of a struct initializer.
fn render_field(fmt: &mut Formatter, field: &(String, Option<Expr>))
    requires
        old(fmt).wf(),
        field_fits(*field, old(fmt).width()),
    ensures
        final(fmt).wf(),
        final(fmt).text() == emit(old(fmt).text(), old(fmt).width(), field_text(*field)),
        final(fmt).width() == old(fmt).width(),
    decreases field,
{
    let ghost t0 = fmt.text();
    let ghost w = fmt.width();
    fmt.write_str(field.0.as_str());
    match &field.1 {
        Some(v) => {
            fmt.write_str(": ");
            proof {
                lemma_emit_concat(t0, w, field.0@, ": "@);
            }
            v.render(fmt);
            proof {
                lemma_emit_concat(t0, w, field.0@ + ": "@, v.text());
            }
        },
        None => {},
    }
}

impl StructInitializer {
    /// Whether the fields are laid out one per line.
    pub closed spec fn is_multiline(&self) -> bool {
        self.multiline
    }

    /// The struct's name.
    pub closed spec fn name(&self) -> Seq<char> {
        self.name@
    }

    /// The fields, in order: a name, and a value unless the field is written by shorthand.
    pub closed spec fn fields(&self) -> Seq<(String, Option<Expr>)> {
        self.fields@
    }

    /// `NAME {}`; `NAME { f: v, g }`; or one field per line in braces.
    pub open spec fn text(&self) -> Seq<char>
        decreases self,
    {
        if self.fields().len() == 0 {
            self.name() + " {}"@
        } else if self.is_multiline() {
            self.name() + " {\n"@ + indented(terminated(field_texts(self.fields()), ",\n"@)) + "}"@
        } else {
            self.name() + " { "@ + join(field_texts(self.fields()), ", "@) + " }"@
        }
    }

    pub open spec fn fits_in(&self, width: nat) -> bool
        decreases self,
    {
        if self.is_multiline() && self.fields().len() > 0 {
            width + INDENT_UNIT <= usize::MAX && fields_fit(
                self.fields(),
                (width + INDENT_UNIT) as nat,
            )
        } else {
            fields_fit(self.fields(), width)
        }
    }

    pub fn new(name: &str) -> (r: Self)
        ensures
            !r.is_multiline(),
            r.name() == name@,
            r.fields() == Seq::<(String, Option<Expr>)>::empty(),
    {
        StructInitializer { multiline: false, name: String::from_str(name), fields: Vec::new() }
    }

    /// Chooses between the inline and the one-per-line layout.
    pub fn multiline(self, multiline: bool) -> (r: Self)
        ensures
            r.is_multiline() == multiline,
            r.name() == self.name(),
            r.fields() == self.fields(),
    {
        let mut s = self;
        s.multiline = multiline;
        s
    }

    /// Adds a field with an explicit value after the others.
    pub fn field(self, name: &str, value: Expr) -> (r: Self)
        ensures
            r.is_multiline() == self.is_multiline(),
            r.name() == self.name(),
            r.fields().len() == self.fields().len() + 1,
            r.fields().drop_last() == self.fields(),
            r.fields().last().0@ == name@,
            r.fields().last().1 == Some(value),
    {
        let mut s = self;
        s.fields.push((String::from_str(name), Some(value)));
        proof {
            assert(s.fields@.drop_last() =~= self.fields@);
        }
        s
    }

    /// Adds a field whose value is the binding of the same name, written by shorthand.
    pub fn field_auto(self, name: &str) -> (r: Self)
        ensures
            r.is_multiline() == self.is_multiline(),
            r.name() == self.name(),
            r.fields().len() == self.fields().len() + 1,
            r.fields().drop_last() == self.fields(),
            r.fields().last().0@ == name@,
            r.fields().last().1 == None::<Expr>,
    {
        let mut s = self;
        s.fields.push((String::from_str(name), None));
        proof {
            assert(s.fields@.drop_last() =~= self.fields@);
        }
        s
    }

    pub fn render(&self, fmt: &mut Formatter)
        requires
            old(fmt).wf(),
            self.fits_in(old(fmt).width()),
        ensures
            final(fmt).wf(),
            final(fmt).text() == emit(old(fmt).text(), old(fmt).width(), self.text()),
            final(fmt).width() == old(fmt).width(),
        decreases self,
    {
        let ghost t0 = fmt.text();
        let ghost w = fmt.width();
        let n = self.fields.len();
        proof {
            reveal_strlit(" {\n");
            reveal_strlit(",\n");
        }
        fmt.write_str(self.name.as_str());
        if n == 0 {
            fmt.write_str(" {}");
            proof {
                lemma_emit_concat(t0, w, self.name@, " {}"@);
            }
            return;
        }
        if self.multiline {
            fmt.write_str(" {\n");
            proof {
                lemma_emit_concat(t0, w, self.name@, " {\n"@);
                lemma_emit_line_start(t0, w, self.name@ + " {\n"@);
            }
            let ghost t1 = fmt.text();
            let ghost inner = (w + INDENT_UNIT) as nat;
            fmt.enter();
            let mut i: usize = 0;
            while i < n
                invariant
                    fmt.wf(),
                    fmt.width() == inner,
                    at_line_start(t1),
                    i <= n,
                    n == self.fields@.len(),
                    fields_fit(self.fields@, inner),
                    fmt.text() == emit(
                        t1,
                        inner,
                        terminated(field_texts(self.fields@.take(i as int)), ",\n"@),
                    ),
                decreases n - i,
            {
                proof {
                    lemma_fields_fit(self.fields@, inner, i as int);
                }
                let ghost before = terminated(field_texts(self.fields@.take(i as int)), ",\n"@);
                render_field(fmt, &self.fields[i]);
                fmt.write_str(",\n");
                proof {
                    let x = field_text(self.fields@[i as int]);
                    lemma_emit_concat(t1, inner, before, x);
                    lemma_emit_concat(t1, inner, before + x, ",\n"@);
                    lemma_field_texts_take(self.fields@, i as int);
                    lemma_terminated_push(field_texts(self.fields@.take(i as int)), x, ",\n"@);
                    assert(before + x + ",\n"@ =~= terminated(
                        field_texts(self.fields@.take(i + 1)),
                        ",\n"@,
                    ));
                }
                i = i + 1;
            }
            fmt.leave();
            fmt.write_str("}");
            proof {
                assert(self.fields@.take(n as int) =~= self.fields@);
                let body = terminated(field_texts(self.fields@), ",\n"@);
                lemma_emit_indented(t1, w, body);
                lemma_emit_concat(t0, w, self.name@ + " {\n"@, indented(body));
                lemma_emit_concat(t0, w, self.name@ + " {\n"@ + indented(body), "}"@);
            }
        } else {
            fmt.write_str(" { ");
            proof {
                lemma_emit_concat(t0, w, self.name@, " { "@);
            }
            let ghost head = self.name@ + " { "@;
            let mut i: usize = 0;
            while i < n
                invariant
                    fmt.wf(),
                    fmt.width() == w,
                    i <= n,
                    n == self.fields@.len(),
                    fields_fit(self.fields@, w),
                    fmt.text() == emit(
                        t0,
                        w,
                        head + join(field_texts(self.fields@.take(i as int)), ", "@),
                    ),
                decreases n - i,
            {
                proof {
                    lemma_fields_fit(self.fields@, w, i as int);
                    lemma_field_texts_take(self.fields@, i as int);
                    lemma_join_push(
                        field_texts(self.fields@.take(i as int)),
                        field_text(self.fields@[i as int]),
                        ", "@,
                    );
                }
                let ghost acc = head + join(field_texts(self.fields@.take(i as int)), ", "@);
                if i > 0 {
                    fmt.write_str(", ");
                    proof {
                        lemma_emit_concat(t0, w, acc, ", "@);
                    }
                }
                let ghost acc2 = if i > 0 {
                    acc + ", "@
                } else {
                    acc
                };
                render_field(fmt, &self.fields[i]);
                proof {
                    let x = field_text(self.fields@[i as int]);
                    lemma_emit_concat(t0, w, acc2, x);
                    assert(acc2 + x =~= head + join(field_texts(self.fields@.take(i + 1)), ", "@));
                }
                i = i + 1;
            }
            fmt.write_str(" }");
            proof {
                assert(self.fields@.take(n as int) =~= self.fields@);
                lemma_emit_concat(t0, w, head + join(field_texts(self.fields@), ", "@), " }"@);
            }
        }
    }
}

impl TupleStructInitializer {
    /// The struct's name.
    pub closed spec fn name(&self) -> Seq<char> {
        self.name@
    }

    /// The arguments, as a tuple.
    pub closed spec fn tuple(&self) -> Tuple {
        self.tuple
    }

    /// The name, then the arguments as a tuple.
    pub open spec fn text(&self) -> Seq<char>
        decreases self,
    {
        self.name() + self.tuple().text()
    }

    pub open spec fn fits_in(&self, width: nat) -> bool
        decreases self,
    {
        self.tuple().fits_in(width)
    }

    pub fn new(name: &str) -> (r: Self)
        ensures
            r.name() == name@,
            !r.tuple().is_multiline(),
            r.tuple().values() == Seq::<Expr>::empty(),
    {
        TupleStructInitializer { name: String::from_str(name), tuple: Tuple::new() }
    }

    /// Chooses between the inline and the one-per-line layout.
    pub fn multiline(self, multiline: bool) -> (r: Self)
        ensures
            r.name() == self.name(),
            r.tuple().is_multiline() == multiline,
            r.tuple().values() == self.tuple().values(),
    {
        let mut t = self;
        t.tuple.multiline = multiline;
        t
    }

    /// Adds an argument after the others.
    pub fn arg(self, value: Expr) -> (r: Self)
        ensures
            r.name() == self.name(),
            r.tuple().is_multiline() == self.tuple().is_multiline(),
            r.tuple().values() == self.tuple().values().push(value),
    {
        let mut t = self;
        t.tuple.values.push(value);
        t
    }

    pub fn render(&self, fmt: &mut Formatter)
        requires
            old(fmt).wf(),
            self.fits_in(old(fmt).width()),
        ensures
            final(fmt).wf(),
            final(fmt).text() == emit(old(fmt).text(), old(fmt).width(), self.text()),
            final(fmt).width() == old(fmt).width(),
        decreases self,
    {
        let ghost t0 = fmt.text();
        fmt.write_str(self.name.as_str());
        self.tuple.render(fmt);
        proof {
            lemma_emit_concat(t0, fmt.width(), self.name@, self.tuple.text());
        }
    }
}

impl GenerateCode for Binding {
    open spec fn code(&self) -> Seq<char> {
        self.text()
    }

    open spec fn fits(&self, width: nat) -> bool {
        true
    }

    fn generate(&self, fmt: &mut Formatter) {
        self.render(fmt)
    }
}

impl GenerateCode for Literal {
    open spec fn code(&self) -> Seq<char> {
        self.text()
    }

    open spec fn fits(&self, width: nat) -> bool {
        true
    }

    fn generate(&self, fmt: &mut Formatter) {
        self.render(fmt)
    }
}

impl GenerateCode for Call {
    open spec fn code(&self) -> Seq<char> {
        self.text()
    }

    open spec fn fits(&self, width: nat) -> bool {
        self.fits_in(width)
    }

    fn generate(&self, fmt: &mut Formatter) {
        self.render(fmt)
    }
}

impl GenerateCode for UnaryOperation {
    open spec fn code(&self) -> Seq<char> {
        self.text()
    }

    open spec fn fits(&self, width: nat) -> bool {
        self.fits_in(width)
    }

    fn generate(&self, fmt: &mut Formatter) {
        self.render(fmt)
    }
}

impl GenerateCode for BinaryOperation {
    open spec fn code(&self) -> Seq<char> {
        self.text()
    }

    open spec fn fits(&self, width: nat) -> bool {
        self.fits_in(width)
    }

    fn generate(&self, fmt: &mut Formatter) {
        self.render(fmt)
    }
}

impl GenerateCode for Cast {
    open spec fn code(&self) -> Seq<char> {
        self.text()
    }

    open spec fn fits(&self, width: nat) -> bool {
        self.fits_in(width)
    }

    fn generate(&self, fmt: &mut Formatter) {
        self.render(fmt)
    }
}

impl GenerateCode for Tuple {
    open spec fn code(&self) -> Seq<char> {
        self.text()
    }

    open spec fn fits(&self, width: nat) -> bool {
        self.fits_in(width)
    }

    fn generate(&self, fmt: &mut Formatter) {
        self.render(fmt)
    }
}

impl GenerateCode for Array {
    open spec fn code(&self) -> Seq<char> {
        self.text()
    }

    open spec fn fits(&self, width: nat) -> bool {
        self.fits_in(width)
    }

    fn generate(&self, fmt: &mut Formatter) {
        self.render(fmt)
    }
}

impl GenerateCode for StructInitializer {
    open spec fn code(&self) -> Seq<char> {
        self.text()
    }

    open spec fn fits(&self, width: nat) -> bool {
        self.fits_in(width)
    }

    fn generate(&self, fmt: &mut Formatter) {
        self.render(fmt)
    }
}

impl GenerateCode for TupleStructInitializer {
    open spec fn code(&self) -> Seq<char> {
        self.text()
    }

    open spec fn fits(&self, width: nat) -> bool {
        self.fits_in(width)
    }

    fn generate(&self, fmt: &mut Formatter) {
        self.render(fmt)
    }
}

/// A bracketed list laid out inline holds no newline when its parts hold none; laid out one per
/// line with at least one part, it breaks the line right after the opening bracket.
pub proof fn lemma_bracketed_lines(
    open: Seq<char>,
    close: Seq<char>,
    parts: Seq<Seq<char>>,
    multiline: bool,
    single_comma: bool,
)
    requires
        single_line(open),
        single_line(close),
    ensures
        !multiline && (forall|i: int| 0 <= i < parts.len() ==> single_line(#[trigger] parts[i]))
            ==> single_line(bracketed(open, close, parts, multiline, single_comma)),
        multiline && parts.len() > 0 ==> bracketed(open, close, parts, multiline, single_comma)[open.len() as int] == '\n',
{
    reveal_strlit(", ");
    reveal_strlit(",");
    reveal_strlit("\n");
    if parts.len() == 0 {
        lemma_single_line_concat(open, close);
    } else if multiline {
        let t = bracketed(open, close, parts, multiline, single_comma);
        assert(t[open.len() as int] == "\n"@[0]);
    } else if forall|i: int| 0 <= i < parts.len() ==> single_line(#[trigger] parts[i]) {
        lemma_join_single_line(parts, ", "@);
        let comma = if single_comma && parts.len() == 1 {
            ","@
        } else {
            Seq::<char>::empty()
        };
        lemma_single_line_concat(open, join(parts, ", "@));
        lemma_single_line_concat(open + join(parts, ", "@), comma);
        lemma_single_line_concat(open + join(parts, ", "@) + comma, close);
    }
}

/// Multiline layout: a tuple laid out inline holds no newline when none of its elements does;
/// laid out one per line with at least one element, it holds one.
pub proof fn lemma_tuple_lines(t: &Tuple)
    ensures
        !t.is_multiline() && (forall|i: int|
            0 <= i < t.values().len() ==> single_line(#[trigger] t.values()[i].text()))
            ==> single_line(t.text()),
        t.is_multiline() && t.values().len() > 0 ==> !single_line(t.text()),
{
    reveal_strlit("(");
    reveal_strlit(")");
    lemma_texts(t.values@);
    let parts = texts(t.values@);
    if !t.is_multiline() && forall|i: int|
        0 <= i < t.values().len() ==> single_line(#[trigger] t.values()[i].text()) {
        assert forall|i: int| 0 <= i < parts.len() implies single_line(#[trigger] parts[i]) by {
            assert(parts[i] == t.values()[i].text());
        }
        lemma_bracketed_lines("("@, ")"@, parts, t.multiline, true);
        assert(t.text() == bracketed("("@, ")"@, parts, t.multiline, true));
        assert(single_line(t.text()));
    }
    lemma_bracketed_lines("("@, ")"@, parts, t.multiline, true);
    if t.is_multiline() && t.values().len() > 0 {
        assert(t.text()[1] == '\n');
    }
}

/// Multiline layout: an array laid out inline holds no newline when none of its elements does;
/// laid out one per line with at least one element, it holds one.
pub proof fn lemma_array_lines(a: &Array)
    ensures
        !a.is_multiline() && (forall|i: int|
            0 <= i < a.values().len() ==> single_line(#[trigger] a.values()[i].text()))
            ==> single_line(a.text()),
        a.is_multiline() && a.values().len() > 0 ==> !single_line(a.text()),
{
    reveal_strlit("[");
    reveal_strlit("]");
    lemma_texts(a.values@);
    let parts = texts(a.values@);
    if !a.is_multiline() && forall|i: int|
        0 <= i < a.values().len() ==> single_line(#[trigger] a.values()[i].text()) {
        assert forall|i: int| 0 <= i < parts.len() implies single_line(#[trigger] parts[i]) by {
            assert(parts[i] == a.values()[i].text());
        }
        lemma_bracketed_lines("["@, "]"@, parts, a.multiline, false);
        assert(a.text() == bracketed("["@, "]"@, parts, a.multiline, false));
        assert(single_line(a.text()));
    }
    lemma_bracketed_lines("["@, "]"@, parts, a.multiline, false);
    if a.is_multiline() && a.values().len() > 0 {
        assert(a.text()[1] == '\n');
    }
}

/// One-element tuples: a tuple with exactly one element carries a comma before its closing
/// parenthesis in both layouts; with any other count, the inline layout adds no comma and the
/// one-per-line layout has only its per-line commas. Arrays never add that comma.
pub proof fn lemma_tuple_single_comma(t: &Tuple, a: &Array)
    ensures
        t.values().len() == 1 && !t.is_multiline() ==> t.text() == "("@ + t.values()[0].text()
            + ",)"@,
        t.values().len() == 1 && t.is_multiline() ==> t.text() == "(\n"@ + indented(
            t.values()[0].text() + ",\n"@,
        ) + ")"@,
        t.values().len() != 1 && !t.is_multiline() ==> t.text() == "("@ + join(
            texts(t.values()),
            ", "@,
        ) + ")"@,
        t.values().len() > 1 && t.is_multiline() ==> t.text() == "(\n"@ + indented(
            terminated(texts(t.values()), ",\n"@),
        ) + ")"@,
        a.values().len() == 1 && !a.is_multiline() ==> a.text() == "["@ + a.values()[0].text()
            + "]"@,
{
    reveal_strlit("(");
    reveal_strlit(")");
    reveal_strlit(",)");
    reveal_strlit(",");
    reveal_strlit("(\n");
    reveal_strlit("\n");
    lemma_texts(t.values@);
    lemma_texts(a.values@);
    let parts = texts(t.values@);
    if parts.len() == 1 {
        assert(parts.drop_last() =~= Seq::<Seq<char>>::empty());
        assert(terminated(parts.drop_last(), ",\n"@) =~= Seq::<char>::empty());
        assert(terminated(parts, ",\n"@) =~= parts[0] + ",\n"@);
    }
    assert("("@ + "\n"@ =~= "(\n"@);
    assert(","@ + ")"@ =~= ",)"@);
    if parts.len() == 0 {
        assert(join(parts, ", "@) =~= Seq::<char>::empty());
    }
    assert(t.text() =~= bracketed("("@, ")"@, parts, t.multiline, true));
    let aparts = texts(a.values@);
    assert(a.text() =~= bracketed("["@, "]"@, aparts, a.multiline, false));
}

pub proof fn lemma_field_texts(s: Seq<(String, Option<Expr>)>)
    ensures
        field_texts(s).len() == s.len(),
        forall|i: int| 0 <= i < s.len() ==> #[trigger] field_texts(s)[i] == field_text(s[i]),
    decreases s.len(),
{
    if s.len() > 0 {
        lemma_field_texts(s.subrange(0, s.len() - 1));
    }
}

/// A field's name and value, if any, hold no newline.
pub open spec fn field_single_line(f: (String, Option<Expr>)) -> bool {
    single_line(f.0@) && match f.1 {
        Some(v) => single_line(v.text()),
        None => true,
    }
}

/// Multiline layout: a struct initializer laid out inline holds no newline when neither its
/// name nor any field does; laid out one per line with at least one field, it holds one.
pub proof fn lemma_struct_initializer_lines(s: &StructInitializer)
    ensures
        !s.is_multiline() && single_line(s.name()) && (forall|i: int|
            0 <= i < s.fields().len() ==> field_single_line(#[trigger] s.fields()[i]))
            ==> single_line(s.text()),
        s.is_multiline() && s.fields().len() > 0 ==> !single_line(s.text()),
{
    reveal_strlit(" {}");
    reveal_strlit(" { ");
    reveal_strlit(" }");
    reveal_strlit(", ");
    reveal_strlit(": ");
    reveal_strlit(" {\n");
    let parts = field_texts(s.fields@);
    lemma_field_texts(s.fields@);
    if s.fields.len() == 0 {
        if single_line(s.name()) {
            lemma_single_line_concat(s.name@, " {}"@);
        }
    } else if s.multiline {
        assert(s.text()[s.name@.len() as int + 2] == '\n');
    } else if single_line(s.name()) && forall|i: int|
        0 <= i < s.fields().len() ==> field_single_line(#[trigger] s.fields()[i]) {
        assert forall|i: int| 0 <= i < parts.len() implies single_line(#[trigger] parts[i]) by {
            let f = s.fields()[i];
            assert(field_single_line(f));
            assert(parts[i] == field_text(f));
            match f.1 {
                Some(v) => {
                    lemma_single_line_concat(f.0@, ": "@);
                    lemma_single_line_concat(f.0@ + ": "@, v.text());
                },
                None => {},
            }
        }
        lemma_join_single_line(parts, ", "@);
        lemma_single_line_concat(s.name@, " { "@);
        lemma_single_line_concat(s.name@ + " { "@, join(parts, ", "@));
        lemma_single_line_concat(s.name@ + " { "@ + join(parts, ", "@), " }"@);
    }
}

/// Multiline layout: a tuple struct initializer laid out inline holds no newline when neither
/// its name nor any argument does; laid out one per line with at least one argument, it holds
/// one.
pub proof fn lemma_tuple_struct_initializer_lines(t: &TupleStructInitializer)
    ensures
        !t.tuple().is_multiline() && single_line(t.name()) && (forall|i: int|
            0 <= i < t.tuple().values().len() ==> single_line(
                #[trigger] t.tuple().values()[i].text(),
            )) ==> single_line(t.text()),
        t.tuple().is_multiline() && t.tuple().values().len() > 0 ==> !single_line(t.text()),
{
    lemma_tuple_lines(&t.tuple);
    if single_line(t.name()) && single_line(t.tuple.text()) {
        lemma_single_line_concat(t.name@, t.tuple.text());
    }
    if !single_line(t.tuple.text()) {
        let i = choose|i: int| 0 <= i < t.tuple.text().len() && t.tuple.text()[i] == '\n';
        assert(t.text()[t.name@.len() as int + i] == '\n');
    }
}

} // verus!
