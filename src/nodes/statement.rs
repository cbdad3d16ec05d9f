use vstd::prelude::*;
use vstd::string::*;

use crate::expr::Expr;
use crate::generator::{
    after, at_line_start, braced, emit, indented, lemma_emit_concat, lemma_emit_indented,
    lemma_emit_line_start, Formatter, GenerateCode, INDENT_UNIT,
};

verus! {

/// A statement's text as a line of its own: a newline is added unless it already ends one.
pub open spec fn as_line(s: Seq<char>) -> Seq<char> {
    if at_line_start(s) {
        s
    } else {
        s.push('\n')
    }
}

/// The statements, each on a line of its own.
pub open spec fn statement_lines(s: Seq<Statement>) -> Seq<char>
    decreases s.len(),
{
    if s.len() == 0 {
        Seq::empty()
    } else {
        statement_lines(s.drop_last()) + as_line(s.last().text())
    }
}

/// Every statement of `s` renders at indentation `width`.
pub open spec fn statements_fit(s: Seq<Statement>, width: nat) -> bool {
    forall|i: int| 0 <= i < s.len() ==> #[trigger] s[i].fits_in(width)
}

/// A sequence of statements in braces.
pub struct Block {
    statements: Vec<Statement>,
}

impl Block {
    /// The statements, in order.
    pub closed spec fn statements(&self) -> Seq<Statement> {
        self.statements@
    }

    /// `{`, the statements one per line one level deeper, `}`, each brace ending a line.
    pub open spec fn text(&self) -> Seq<char> {
        braced(statement_lines(self.statements()))
    }

    pub open spec fn fits_in(&self, width: nat) -> bool {
        width + INDENT_UNIT <= usize::MAX && statements_fit(
            self.statements(),
            (width + INDENT_UNIT) as nat,
        )
    }

    pub fn new() -> (r: Self)
        ensures
            r.statements() == Seq::<Statement>::empty(),
    {
        Block { statements: Vec::new() }
    }

    /// Adds a statement after the others.
    pub fn add_statement(&mut self, statement: Statement) -> (r: &mut Self)
        ensures
            r.statements() == old(self).statements().push(statement),
            *final(self) == *final(r),
    {
        self.statements.push(statement);
        self
    }

    pub fn render(&self, fmt: &mut Formatter)
        requires
            old(fmt).wf(),
            self.fits_in(old(fmt).width()),
        ensures
            final(fmt).wf(),
            final(fmt).text() == emit(old(fmt).text(), old(fmt).width(), self.text()),
            final(fmt).width() == old(fmt).width(),
    {
        let ghost t0 = fmt.text();
        let ghost w = fmt.width();
        proof {
            reveal_strlit("{\n");
            reveal_strlit("\n");
        }
        fmt.write_str("{\n");
        proof {
            lemma_emit_line_start(t0, w, "{\n"@);
        }
        let ghost t1 = fmt.text();
        let ghost inner = (w + INDENT_UNIT) as nat;
        fmt.enter();
        let n = self.statements.len();
        let mut i: usize = 0;
        while i < n
            invariant
                fmt.wf(),
                fmt.width() == inner,
                at_line_start(t1),
                i <= n,
                n == self.statements@.len(),
                statements_fit(self.statements@, inner),
                after(true, statement_lines(self.statements@.take(i as int))),
                fmt.text() == emit(t1, inner, statement_lines(self.statements@.take(i as int))),
            decreases n - i,
        {
            let ghost acc = statement_lines(self.statements@.take(i as int));
            let ghost x = self.statements@[i as int].text();
            self.statements[i].render(fmt);
            proof {
                lemma_emit_concat(t1, inner, acc, x);
                lemma_emit_line_start(t1, inner, acc + x);
                assert(self.statements@.take(i + 1).drop_last() =~= self.statements@.take(
                    i as int,
                ));
                if x.len() > 0 {
                    assert((acc + x).last() == x.last());
                } else {
                    assert(acc + x =~= acc);
                }
            }
            if !fmt.is_start_of_line() {
                fmt.write_str("\n");
                proof {
                    lemma_emit_concat(t1, inner, acc + x, "\n"@);
                    reveal_strlit("\n");
                    assert("\n"@ =~= seq!['\n']);
                    assert(acc + x + "\n"@ =~= acc + x.push('\n'));
                }
            }
            proof {
                assert(statement_lines(self.statements@.take(i + 1)) == acc + as_line(x));
                let l = as_line(x);
                if l.len() > 0 {
                    assert((acc + l).last() == l.last());
                } else {
                    assert(acc + l =~= acc);
                }
            }
            i = i + 1;
        }
        fmt.leave();
        fmt.write_str("}\n");
        proof {
            assert(self.statements@.take(n as int) =~= self.statements@);
            let body = statement_lines(self.statements@);
            lemma_emit_indented(t1, w, body);
            lemma_emit_concat(t0, w, "{\n"@, indented(body));
            lemma_emit_concat(t0, w, "{\n"@ + indented(body), "}\n"@);
        }
    }
}

impl Default for Block {
    fn default() -> (r: Self)
        ensures
            r.statements() == Seq::<Statement>::empty(),
    {
        Block::new()
    }
}

impl GenerateCode for Block {
    open spec fn code(&self) -> Seq<char> {
        self.text()
    }

    open spec fn fits(&self, width: nat) -> bool {
        self.fits_in(width)
    }

    fn generate(&self, fmt: &mut Formatter) {
        self.render(fmt)
    }
}

/// A statement.
#[non_exhaustive]
pub enum Statement {
    Let(Box<LetStatement>),
    Return(Box<ReturnStatement>),
}

impl Statement {
    pub open spec fn text(&self) -> Seq<char> {
        match self {
            Statement::Let(s) => s.text(),
            Statement::Return(s) => s.text(),
        }
    }

    pub open spec fn fits_in(&self, width: nat) -> bool {
        match self {
            Statement::Let(s) => s.fits_in(width),
            Statement::Return(s) => s.fits_in(width),
        }
    }

    pub fn render(&self, fmt: &mut Formatter)
        requires
            old(fmt).wf(),
            self.fits_in(old(fmt).width()),
        ensures
            final(fmt).wf(),
            final(fmt).text() == emit(old(fmt).text(), old(fmt).width(), self.text()),
            final(fmt).width() == old(fmt).width(),
    {
        match self {
            Statement::Let(s) => s.render(fmt),
            Statement::Return(s) => s.render(fmt),
        }
    }
}

impl GenerateCode for Statement {
    open spec fn code(&self) -> Seq<char> {
        self.text()
    }

    open spec fn fits(&self, width: nat) -> bool {
        self.fits_in(width)
    }

    fn generate(&self, fmt: &mut Formatter) {
        self.render(fmt)
    }
}

/// `let [mut ]NAME = VALUE;`
pub struct LetStatement {
    mutable: bool,
    name: String,
    value: Expr,
}

impl LetStatement {
    /// Whether the binding is mutable.
    pub closed spec fn is_mut(&self) -> bool {
        self.mutable
    }

    /// The bound name.
    pub closed spec fn name(&self) -> Seq<char> {
        self.name@
    }

    /// The bound value.
    pub closed spec fn value(&self) -> Expr {
        self.value
    }

    pub open spec fn text(&self) -> Seq<char> {
        "let "@ + (if self.is_mut() {
            "mut "@
        } else {
            Seq::empty()
        }) + self.name() + " = "@ + self.value().text() + ";"@
    }

    pub open spec fn fits_in(&self, width: nat) -> bool {
        self.value().fits_in(width)
    }

    pub fn new(name: &str, value: Expr) -> (r: Self)
        ensures
            !r.is_mut(),
            r.name() == name@,
            r.value() == value,
    {
        LetStatement { mutable: false, name: String::from_str(name), value }
    }

    /// Makes the binding mutable or not.
    pub fn set_mut(&mut self, mutable: bool) -> (r: &mut Self)
        ensures
            r.is_mut() == mutable,
            r.name() == old(self).name(),
            r.value() == old(self).value(),
            *final(self) == *final(r),
    {
        self.mutable = mutable;
        self
    }

    pub fn render(&self, fmt: &mut Formatter)
        requires
            old(fmt).wf(),
            self.fits_in(old(fmt).width()),
        ensures
            final(fmt).wf(),
            final(fmt).text() == emit(old(fmt).text(), old(fmt).width(), self.text()),
            final(fmt).width() == old(fmt).width(),
    {
        let ghost t0 = fmt.text();
        let ghost w = fmt.width();
        fmt.write_str("let ");
        let ghost mut acc = "let "@;
        if self.mutable {
            fmt.write_str("mut ");
            proof {
                lemma_emit_concat(t0, w, acc, "mut "@);
                acc = acc + "mut "@;
            }
        } else {
            proof {
                assert(acc =~= acc + Seq::<char>::empty());
            }
        }
        fmt.write_str(self.name.as_str());
        proof {
            lemma_emit_concat(t0, w, acc, self.name@);
            acc = acc + self.name@;
        }
        fmt.write_str(" = ");
        proof {
            lemma_emit_concat(t0, w, acc, " = "@);
            acc = acc + " = "@;
        }
        self.value.render(fmt);
        proof {
            lemma_emit_concat(t0, w, acc, self.value.text());
            acc = acc + self.value.text();
        }
        fmt.write_str(";");
        proof {
            lemma_emit_concat(t0, w, acc, ";"@);
            assert(acc + ";"@ =~= self.text());
        }
    }
}

/// `return[ VALUE];` and a newline.
pub struct ReturnStatement {
    value: Option<Expr>,
}

impl ReturnStatement {
    /// The returned value, if any.
    pub closed spec fn value(&self) -> Option<Expr> {
        self.value
    }

    pub open spec fn text(&self) -> Seq<char> {
        "return"@ + match self.value() {
            Some(v) => " "@ + v.text(),
            None => Seq::empty(),
        } + ";\n"@
    }

    pub open spec fn fits_in(&self, width: nat) -> bool {
        match self.value() {
            Some(v) => v.fits_in(width),
            None => true,
        }
    }

    pub fn new(value: Expr) -> (r: Self)
        ensures
            r.value() == Some(value),
    {
        ReturnStatement { value: Some(value) }
    }

    pub fn new_empty() -> (r: Self)
        ensures
            r.value() == None::<Expr>,
    {
        ReturnStatement { value: None }
    }

    pub fn render(&self, fmt: &mut Formatter)
        requires
            old(fmt).wf(),
            self.fits_in(old(fmt).width()),
        ensures
            final(fmt).wf(),
            final(fmt).text() == emit(old(fmt).text(), old(fmt).width(), self.text()),
            final(fmt).width() == old(fmt).width(),
    {
        let ghost t0 = fmt.text();
        let ghost w = fmt.width();
        fmt.write_str("return");
        let ghost mut acc = "return"@;
        match &self.value {
            Some(v) => {
                fmt.write_str(" ");
                proof {
                    lemma_emit_concat(t0, w, acc, " "@);
                    acc = acc + " "@;
                }
                v.render(fmt);
                proof {
                    lemma_emit_concat(t0, w, acc, v.text());
                    acc = acc + v.text();
                }
            },
            None => {
                proof {
                    assert(acc =~= acc + Seq::<char>::empty());
                }
            },
        }
        fmt.write_str(";\n");
        proof {
            lemma_emit_concat(t0, w, acc, ";\n"@);
            assert(acc + ";\n"@ =~= self.text());
        }
    }
}

} // verus!
