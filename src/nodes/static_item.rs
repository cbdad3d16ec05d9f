use vstd::prelude::*;
use vstd::string::*;

use crate::expr::Expr;
use crate::generator::{emit, Formatter, GenerateCode};
use crate::nodes::const_item::{render_valued_item, valued_item_text};

verus! {

/// A static: `[pub ]static NAME: TYPE = VALUE;`.
pub struct Static {
    public: bool,
    name: String,
    ty: String,
    value: Expr,
}

impl Static {
    pub closed spec fn is_public(&self) -> bool {
        self.public
    }

    pub closed spec fn name(&self) -> Seq<char> {
        self.name@
    }

    pub closed spec fn value_type(&self) -> Seq<char> {
        self.ty@
    }

    pub closed spec fn value(&self) -> Expr {
        self.value
    }

    pub open spec fn text(&self) -> Seq<char> {
        valued_item_text(self.is_public(), "static"@, self.name(), self.value_type(), self.value())
    }

    pub open spec fn fits_in(&self, width: nat) -> bool {
        self.value().fits_in(width)
    }

    /// The state of a static just created from these parts.
    pub open spec fn fresh(&self, name: Seq<char>, ty: Seq<char>, value: Expr) -> bool {
        !self.is_public() && self.name() == name && self.value_type() == ty && self.value()
            == value
    }

    pub fn new(name: &str, ty: &str, value: Expr) -> (r: Self)
        ensures
            r.fresh(name@, ty@, value),
    {
        Static { public: false, name: String::from_str(name), ty: String::from_str(ty), value }
    }

    pub fn set_public(&mut self, public: bool) -> (r: &mut Self)
        ensures
            r.is_public() == public,
            r.name() == old(self).name(),
            r.value_type() == old(self).value_type(),
            r.value() == old(self).value(),
            *final(self) == *final(r),
    {
        self.public = public;
        self
    }

    pub fn render(&self, fmt: &mut Formatter)
        requires
            old(fmt).wf(),
            self.fits_in(old(fmt).width()),
        ensures
            final(fmt).wf(),
            final(fmt).text() == emit(old(fmt).text(), old(fmt).width(), self.text()),
            final(fmt).width() == old(fmt).width(),
    {
        render_valued_item(fmt, self.public, "static", &self.name, &self.ty, &self.value);
    }
}

impl GenerateCode for Static {
    open spec fn code(&self) -> Seq<char> {
        self.text()
    }

    open spec fn fits(&self, width: nat) -> bool {
        self.fits_in(width)
    }

    fn generate(&self, fmt: &mut Formatter) {
        self.render(fmt)
    }
}

} // verus!
