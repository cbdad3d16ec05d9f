use vstd::prelude::*;
use vstd::string::*;

use crate::expr::Expr;
use crate::generator::{emit, lemma_emit_concat, visibility, write_visibility, Formatter, GenerateCode};

verus! {

/// `[pub ]KEYWORD NAME: TYPE = VALUE;` and a newline.
pub open spec fn valued_item_text(
    public: bool,
    keyword: Seq<char>,
    name: Seq<char>,
    ty: Seq<char>,
    value: Expr,
) -> Seq<char> {
    visibility(public) + keyword + " "@ + name + ": "@ + ty + " = "@ + value.text() + ";\n"@
}

/// Appends `[pub ]KEYWORD NAME: TYPE = VALUE;` and a newline.
pub fn render_valued_item(
    fmt: &mut Formatter,
    public: bool,
    keyword: &str,
    name: &String,
    ty: &String,
    value: &Expr,
)
    requires
        old(fmt).wf(),
        value.fits_in(old(fmt).width()),
    ensures
        final(fmt).wf(),
        final(fmt).text() == emit(
            old(fmt).text(),
            old(fmt).width(),
            valued_item_text(public, keyword@, name@, ty@, *value),
        ),
        final(fmt).width() == old(fmt).width(),
{
    let ghost t0 = fmt.text();
    let ghost w = fmt.width();
    write_visibility(fmt, public);
    let ghost mut acc = visibility(public);
    fmt.write_str(keyword);
    proof {
        lemma_emit_concat(t0, w, acc, keyword@);
        acc = acc + keyword@;
    }
    fmt.write_str(" ");
    proof {
        lemma_emit_concat(t0, w, acc, " "@);
        acc = acc + " "@;
    }
    fmt.write_str(name.as_str());
    proof {
        lemma_emit_concat(t0, w, acc, name@);
        acc = acc + name@;
    }
    fmt.write_str(": ");
    proof {
        lemma_emit_concat(t0, w, acc, ": "@);
        acc = acc + ": "@;
    }
    fmt.write_str(ty.as_str());
    proof {
        lemma_emit_concat(t0, w, acc, ty@);
        acc = acc + ty@;
    }
    fmt.write_str(" = ");
    proof {
        lemma_emit_concat(t0, w, acc, " = "@);
        acc = acc + " = "@;
    }
    value.render(fmt);
    proof {
        lemma_emit_concat(t0, w, acc, value.text());
        acc = acc + value.text();
    }
    fmt.write_str(";\n");
    proof {
        lemma_emit_concat(t0, w, acc, ";\n"@);
    }
}

/// A constant: `[pub ]const NAME: TYPE = VALUE;`.
pub struct Const {
    public: bool,
    name: String,
    ty: String,
    value: Expr,
}

impl Const {
    pub closed spec fn is_public(&self) -> bool {
        self.public
    }

    pub closed spec fn name(&self) -> Seq<char> {
        self.name@
    }

    pub closed spec fn value_type(&self) -> Seq<char> {
        self.ty@
    }

    pub closed spec fn value(&self) -> Expr {
        self.value
    }

    pub open spec fn text(&self) -> Seq<char> {
        valued_item_text(self.is_public(), "const"@, self.name(), self.value_type(), self.value())
    }

    pub open spec fn fits_in(&self, width: nat) -> bool {
        self.value().fits_in(width)
    }

    /// The state of a constant just created from these parts.
    pub open spec fn fresh(&self, name: Seq<char>, ty: Seq<char>, value: Expr) -> bool {
        !self.is_public() && self.name() == name && self.value_type() == ty && self.value()
            == value
    }

    pub fn new(name: &str, ty: &str, value: Expr) -> (r: Self)
        ensures
            r.fresh(name@, ty@, value),
    {
        Const { public: false, name: String::from_str(name), ty: String::from_str(ty), value }
    }

    pub fn set_public(&mut self, public: bool) -> (r: &mut Self)
        ensures
            r.is_public() == public,
            r.name() == old(self).name(),
            r.value_type() == old(self).value_type(),
            r.value() == old(self).value(),
            *final(self) == *final(r),
    {
        self.public = public;
        self
    }

    pub fn render(&self, fmt: &mut Formatter)
        requires
            old(fmt).wf(),
            self.fits_in(old(fmt).width()),
        ensures
            final(fmt).wf(),
            final(fmt).text() == emit(old(fmt).text(), old(fmt).width(), self.text()),
            final(fmt).width() == old(fmt).width(),
    {
        render_valued_item(fmt, self.public, "const", &self.name, &self.ty, &self.value);
    }
}

impl GenerateCode for Const {
    open spec fn code(&self) -> Seq<char> {
        self.text()
    }

    open spec fn fits(&self, width: nat) -> bool {
        self.fits_in(width)
    }

    fn generate(&self, fmt: &mut Formatter) {
        self.render(fmt)
    }
}

} // verus!
