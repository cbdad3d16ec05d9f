use vstd::prelude::*;
use vstd::string::*;

use crate::generator::{
    at_line_start, braced, emit, indented, join, lemma_emit_concat, lemma_emit_indented,
    lemma_emit_line_start, lemma_join_push, visibility, write_visibility, Formatter, GenerateCode,
    INDENT_UNIT,
};
use crate::nodes::statement::Block;

verus! {

/// The spelling of the receiver parameter, by reference or by value, mutable or not.
pub open spec fn receiver(reference: bool, mutable: bool) -> Seq<char> {
    if reference {
        if mutable {
            "&mut self"@
        } else {
            "&self"@
        }
    } else {
        if mutable {
            "mut self"@
        } else {
            "self"@
        }
    }
}

/// The texts of the parameters, in order.
pub open spec fn param_texts(params: Seq<Param>) -> Seq<Seq<char>> {
    params.map_values(|p: Param| p.text())
}

/// A function: its signature, then a body in braces or, without one, a semicolon.
pub struct Function {
    public: bool,
    constant: bool,
    name: String,
    params: Vec<Param>,
    return_type: Option<String>,
    body: Option<Block>,
}

impl Function {
    pub closed spec fn is_public(&self) -> bool {
        self.public
    }

    pub closed spec fn is_const(&self) -> bool {
        self.constant
    }

    pub closed spec fn name(&self) -> Seq<char> {
        self.name@
    }

    pub closed spec fn params(&self) -> Seq<Param> {
        self.params@
    }

    pub closed spec fn return_type(&self) -> Option<Seq<char>> {
        match &self.return_type {
            Some(t) => Some(t@),
            None => None,
        }
    }

    pub closed spec fn body(&self) -> Option<Block> {
        self.body
    }

    /// `[pub ][const ]fn NAME(PARAMS)[ -> RET]`.
    pub open spec fn signature(&self) -> Seq<char> {
        visibility(self.is_public()) + (if self.is_const() {
            "const "@
        } else {
            Seq::empty()
        }) + "fn "@ + self.name() + "("@ + join(param_texts(self.params()), ", "@) + ")"@
            + match self.return_type() {
            Some(t) => " -> "@ + t,
            None => Seq::empty(),
        }
    }

    /// The signature, then ` ` and the body, or `;` and a newline without a body.
    pub open spec fn text(&self) -> Seq<char> {
        self.signature() + match self.body() {
            Some(b) => " "@ + b.text(),
            None => ";\n"@,
        }
    }

    pub open spec fn fits_in(&self, width: nat) -> bool {
        match self.body() {
            Some(b) => b.fits_in(width),
            None => true,
        }
    }

    /// The state of a function just created under `name`.
    pub open spec fn fresh(&self, name: Seq<char>) -> bool {
        !self.is_public() && !self.is_const() && self.name() == name && self.params()
            == Seq::<Param>::empty() && self.return_type() == None::<Seq<char>> && self.body()
            == None::<Block>
    }

    pub fn new(name: &str) -> (r: Self)
        ensures
            r.fresh(name@),
            !r.is_public(),
            !r.is_const(),
            r.name() == name@,
            r.params() == Seq::<Param>::empty(),
            r.return_type() == None::<Seq<char>>,
            r.body() == None::<Block>,
    {
        Function {
            public: false,
            constant: false,
            name: String::from_str(name),
            params: Vec::new(),
            return_type: None,
            body: None,
        }
    }

    pub fn set_public(&mut self, public: bool) -> (r: &mut Self)
        ensures
            r.is_public() == public,
            r.is_const() == old(self).is_const(),
            r.name() == old(self).name(),
            r.params() == old(self).params(),
            r.return_type() == old(self).return_type(),
            r.body() == old(self).body(),
            *final(self) == *final(r),
    {
        self.public = public;
        self
    }

    /// Marks the function `const` or not.
    pub fn set_const(&mut self, constant: bool) -> (r: &mut Self)
        ensures
            r.is_public() == old(self).is_public(),
            r.is_const() == constant,
            r.name() == old(self).name(),
            r.params() == old(self).params(),
            r.return_type() == old(self).return_type(),
            r.body() == old(self).body(),
            *final(self) == *final(r),
    {
        self.constant = constant;
        self
    }

    /// Adds the receiver parameter after the others.
    pub fn add_self_param(&mut self, reference: bool, mutable: bool) -> (r: &mut Self)
        ensures
            r.is_public() == old(self).is_public(),
            r.is_const() == old(self).is_const(),
            r.name() == old(self).name(),
            r.params().len() == old(self).params().len() + 1,
            r.params().drop_last() == old(self).params(),
            r.params().last().text() == receiver(reference, mutable),
            r.return_type() == old(self).return_type(),
            r.body() == old(self).body(),
            *final(self) == *final(r),
    {
        self.params.push(Param::new_self(reference, mutable));
        proof {
            assert(self.params@.drop_last() =~= old(self).params@);
        }
        self
    }

    /// Adds a parameter `NAME: TYPE` after the others.
    pub fn add_param(&mut self, name: &str, ty: &str) -> (r: &mut Self)
        ensures
            r.is_public() == old(self).is_public(),
            r.is_const() == old(self).is_const(),
            r.name() == old(self).name(),
            r.params().len() == old(self).params().len() + 1,
            r.params().drop_last() == old(self).params(),
            r.params().last().text() == name@ + ": "@ + ty@,
            r.return_type() == old(self).return_type(),
            r.body() == old(self).body(),
            *final(self) == *final(r),
    {
        self.params.push(Param::new(name, ty));
        proof {
            assert(self.params@.drop_last() =~= old(self).params@);
        }
        self
    }

    pub fn set_return_type(&mut self, return_type: &str) -> (r: &mut Self)
        ensures
            r.is_public() == old(self).is_public(),
            r.is_const() == old(self).is_const(),
            r.name() == old(self).name(),
            r.params() == old(self).params(),
            r.return_type() == Some(return_type@),
            r.body() == old(self).body(),
            *final(self) == *final(r),
    {
        self.return_type = Some(String::from_str(return_type));
        self
    }

    /// Gives the function an empty body, to be filled through the returned block.
    pub fn add_body(&mut self) -> (r: &mut Block)
        ensures
            r.statements() == Seq::<crate::nodes::statement::Statement>::empty(),
            final(self).is_public() == old(self).is_public(),
            final(self).is_const() == old(self).is_const(),
            final(self).name() == old(self).name(),
            final(self).params() == old(self).params(),
            final(self).return_type() == old(self).return_type(),
            final(self).body() == Some(*final(r)),
    {
        self.body = Some(Block::new());
        self.body.as_mut().unwrap()
    }

    /// Appends the signature.
    fn render_signature(&self, fmt: &mut Formatter)
        requires
            old(fmt).wf(),
        ensures
            final(fmt).wf(),
            final(fmt).text() == emit(old(fmt).text(), old(fmt).width(), self.signature()),
            final(fmt).width() == old(fmt).width(),
    {
        let ghost t0 = fmt.text();
        let ghost w = fmt.width();
        write_visibility(fmt, self.public);
        let ghost mut acc = visibility(self.public);
        if self.constant {
            fmt.write_str("const ");
            proof {
                lemma_emit_concat(t0, w, acc, "const "@);
                acc = acc + "const "@;
            }
        } else {
            proof {
                assert(acc =~= acc + Seq::<char>::empty());
            }
        }
        fmt.write_str("fn ");
        proof {
            lemma_emit_concat(t0, w, acc, "fn "@);
            acc = acc + "fn "@;
        }
        fmt.write_str(self.name.as_str());
        proof {
            lemma_emit_concat(t0, w, acc, self.name@);
            acc = acc + self.name@;
        }
        fmt.write_str("(");
        proof {
            lemma_emit_concat(t0, w, acc, "("@);
            acc = acc + "("@;
        }
        let ghost head = acc;
        let n = self.params.len();
        let mut i: usize = 0;
        while i < n
            invariant
                fmt.wf(),
                fmt.width() == w,
                i <= n,
                n == self.params@.len(),
                fmt.text() == emit(t0, w, head + join(param_texts(self.params@.take(i as int)), ", "@)),
            decreases n - i,
        {
            let ghost before = head + join(param_texts(self.params@.take(i as int)), ", "@);
            let ghost x = self.params@[i as int].text();
            proof {
                assert(param_texts(self.params@.take(i + 1)) =~= param_texts(
                    self.params@.take(i as int),
                ).push(x));
                lemma_join_push(param_texts(self.params@.take(i as int)), x, ", "@);
            }
            if i > 0 {
                fmt.write_str(", ");
                proof {
                    lemma_emit_concat(t0, w, before, ", "@);
                }
            }
            let ghost mid = if i > 0 {
                before + ", "@
            } else {
                before
            };
            self.params[i].render(fmt);
            proof {
                lemma_emit_concat(t0, w, mid, x);
                assert(mid + x =~= head + join(param_texts(self.params@.take(i + 1)), ", "@));
            }
            i = i + 1;
        }
        proof {
            assert(self.params@.take(n as int) =~= self.params@);
            acc = head + join(param_texts(self.params@), ", "@);
        }
        fmt.write_str(")");
        proof {
            lemma_emit_concat(t0, w, acc, ")"@);
            acc = acc + ")"@;
        }
        match &self.return_type {
            Some(t) => {
                fmt.write_str(" -> ");
                proof {
                    lemma_emit_concat(t0, w, acc, " -> "@);
                    acc = acc + " -> "@;
                }
                fmt.write_str(t.as_str());
                proof {
                    lemma_emit_concat(t0, w, acc, t@);
                    acc = acc + t@;
                }
            },
            None => {
                proof {
                    assert(acc =~= acc + Seq::<char>::empty());
                }
            },
        }
        proof {
            assert(acc =~= self.signature());
        }
    }

    pub fn render(&self, fmt: &mut Formatter)
        requires
            old(fmt).wf(),
            self.fits_in(old(fmt).width()),
        ensures
            final(fmt).wf(),
            final(fmt).text() == emit(old(fmt).text(), old(fmt).width(), self.text()),
            final(fmt).width() == old(fmt).width(),
    {
        let ghost t0 = fmt.text();
        let ghost w = fmt.width();
        self.render_signature(fmt);
        let ghost mut acc = self.signature();
        match &self.body {
            Some(b) => {
                fmt.write_str(" ");
                proof {
                    lemma_emit_concat(t0, w, acc, " "@);
                    acc = acc + " "@;
                }
                b.render(fmt);
                proof {
                    lemma_emit_concat(t0, w, acc, b.text());
                    assert(acc + b.text() =~= self.text());
                }
            },
            None => {
                fmt.write_str(";\n");
                proof {
                    lemma_emit_concat(t0, w, acc, ";\n"@);
                }
            },
        }
    }
}

/// The texts of the functions, in order.
pub open spec fn function_texts(functions: Seq<Function>) -> Seq<Seq<char>> {
    functions.map_values(|f: Function| f.text())
}

/// Every function renders at indentation `width`.
pub open spec fn functions_fit(functions: Seq<Function>, width: nat) -> bool {
    forall|i: int| 0 <= i < functions.len() ==> #[trigger] functions[i].fits_in(width)
}

/// Appends a brace block holding the functions, a blank line between each two.
pub fn render_functions(fmt: &mut Formatter, functions: &Vec<Function>)
    requires
        old(fmt).wf(),
        old(fmt).width() + INDENT_UNIT <= usize::MAX,
        functions_fit(functions@, (old(fmt).width() + INDENT_UNIT) as nat),
    ensures
        final(fmt).wf(),
        final(fmt).text() == emit(
            old(fmt).text(),
            old(fmt).width(),
            braced(join(function_texts(functions@), "\n"@)),
        ),
        final(fmt).width() == old(fmt).width(),
{
    let ghost t0 = fmt.text();
    let ghost w = fmt.width();
    proof {
        reveal_strlit("{\n");
    }
    fmt.write_str("{\n");
    proof {
        lemma_emit_line_start(t0, w, "{\n"@);
    }
    let ghost t1 = fmt.text();
    let ghost inner = (w + INDENT_UNIT) as nat;
    fmt.enter();
    let n = functions.len();
    let mut i: usize = 0;
    while i < n
        invariant
            fmt.wf(),
            fmt.width() == inner,
            at_line_start(t1),
            i <= n,
            n == functions@.len(),
            functions_fit(functions@, inner),
            fmt.text() == emit(t1, inner, join(function_texts(functions@.take(i as int)), "\n"@)),
        decreases n - i,
    {
        let ghost before = join(function_texts(functions@.take(i as int)), "\n"@);
        let ghost x = functions@[i as int].text();
        proof {
            assert(function_texts(functions@.take(i + 1)) =~= function_texts(
                functions@.take(i as int),
            ).push(x));
            lemma_join_push(function_texts(functions@.take(i as int)), x, "\n"@);
        }
        if i > 0 {
            fmt.write_str("\n");
            proof {
                lemma_emit_concat(t1, inner, before, "\n"@);
            }
        }
        let ghost mid = if i > 0 {
            before + "\n"@
        } else {
            before
        };
        functions[i].render(fmt);
        proof {
            lemma_emit_concat(t1, inner, mid, x);
            assert(mid + x =~= join(function_texts(functions@.take(i + 1)), "\n"@));
        }
        i = i + 1;
    }
    fmt.leave();
    fmt.write_str("}\n");
    proof {
        assert(functions@.take(n as int) =~= functions@);
        let body = join(function_texts(functions@), "\n"@);
        lemma_emit_indented(t1, w, body);
        lemma_emit_concat(t0, w, "{\n"@, indented(body));
        lemma_emit_concat(t0, w, "{\n"@ + indented(body), "}\n"@);
    }
}

impl GenerateCode for Function {
    open spec fn code(&self) -> Seq<char> {
        self.text()
    }

    open spec fn fits(&self, width: nat) -> bool {
        self.fits_in(width)
    }

    fn generate(&self, fmt: &mut Formatter) {
        self.render(fmt)
    }
}

/// A parameter: `NAME: TYPE`, or the receiver, which has no type.
pub struct Param {
    name: String,
    ty: Option<String>,
}

impl Param {
    pub closed spec fn name(&self) -> Seq<char> {
        self.name@
    }

    pub closed spec fn param_type(&self) -> Option<Seq<char>> {
        match &self.ty {
            Some(t) => Some(t@),
            None => None,
        }
    }

    pub open spec fn text(&self) -> Seq<char> {
        self.name() + match self.param_type() {
            Some(t) => ": "@ + t,
            None => Seq::empty(),
        }
    }

    pub fn new(name: &str, ty: &str) -> (r: Self)
        ensures
            r.name() == name@,
            r.param_type() == Some(ty@),
            r.text() == name@ + ": "@ + ty@,
    {
        Param { name: String::from_str(name), ty: Some(String::from_str(ty)) }
    }

    /// The receiver parameter, spelled `self`, `mut self`, `&self` or `&mut self`.
    pub fn new_self(reference: bool, mutable: bool) -> (r: Self)
        ensures
            r.name() == receiver(reference, mutable),
            r.param_type() == None::<Seq<char>>,
            r.text() == receiver(reference, mutable),
    {
        let name = if reference {
            if mutable {
                "&mut self"
            } else {
                "&self"
            }
        } else {
            if mutable {
                "mut self"
            } else {
                "self"
            }
        };
        let r = Param { name: String::from_str(name), ty: None };
        proof {
            assert(r.text() =~= r.name() + Seq::<char>::empty());
        }
        r
    }

    pub fn render(&self, fmt: &mut Formatter)
        requires
            old(fmt).wf(),
        ensures
            final(fmt).wf(),
            final(fmt).text() == emit(old(fmt).text(), old(fmt).width(), self.text()),
            final(fmt).width() == old(fmt).width(),
    {
        let ghost t0 = fmt.text();
        let ghost w = fmt.width();
        fmt.write_str(self.name.as_str());
        match &self.ty {
            Some(t) => {
                fmt.write_str(": ");
                proof {
                    lemma_emit_concat(t0, w, self.name@, ": "@);
                }
                fmt.write_str(t.as_str());
                proof {
                    lemma_emit_concat(t0, w, self.name@ + ": "@, t@);
                    assert(self.param_type() == Some(t@));
                    assert(self.text() =~= self.name@ + ": "@ + t@);
                }
            },
            None => {
                proof {
                    assert(self.param_type() == None::<Seq<char>>);
                    assert(self.text() =~= self.name@ + Seq::<char>::empty());
                }
            },
        }
    }
}

impl GenerateCode for Param {
    open spec fn code(&self) -> Seq<char> {
        self.text()
    }

    open spec fn fits(&self, width: nat) -> bool {
        true
    }

    fn generate(&self, fmt: &mut Formatter) {
        self.render(fmt)
    }
}

} // verus!
