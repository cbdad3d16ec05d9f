use vstd::prelude::*;
use vstd::string::*;

use crate::generator::{
    emit, lemma_emit_concat, visibility, write_visibility, Formatter, GenerateCode,
};

verus! {

/// An enum. Variants are not supported yet: an enum renders with an empty body.
pub struct Enum {
    public: bool,
    name: String,
}

impl Enum {
    pub closed spec fn is_public(&self) -> bool {
        self.public
    }

    pub closed spec fn name(&self) -> Seq<char> {
        self.name@
    }

    /// `[pub ]enum NAME `, a newline, then an empty brace block.
    pub open spec fn text(&self) -> Seq<char> {
        visibility(self.is_public()) + "enum "@ + self.name() + " \n"@ + "{\n"@ + "}\n"@
    }

    pub fn new(name: &str) -> (r: Self)
        ensures
            !r.is_public(),
            r.name() == name@,
    {
        Enum { public: false, name: String::from_str(name) }
    }

    pub fn set_public(&mut self, public: bool) -> (r: &mut Self)
        ensures
            r.is_public() == public,
            r.name() == old(self).name(),
            *final(self) == *final(r),
    {
        self.public = public;
        self
    }

    pub fn render(&self, fmt: &mut Formatter)
        requires
            old(fmt).wf(),
        ensures
            final(fmt).wf(),
            final(fmt).text() == emit(old(fmt).text(), old(fmt).width(), self.text()),
            final(fmt).width() == old(fmt).width(),
    {
        let ghost t0 = fmt.text();
        let ghost w = fmt.width();
        write_visibility(fmt, self.public);
        let ghost mut acc = visibility(self.public);
        fmt.write_str("enum ");
        proof {
            lemma_emit_concat(t0, w, acc, "enum "@);
            acc = acc + "enum "@;
        }
        fmt.write_str(self.name.as_str());
        proof {
            lemma_emit_concat(t0, w, acc, self.name@);
            acc = acc + self.name@;
        }
        fmt.write_str(" \n");
        proof {
            lemma_emit_concat(t0, w, acc, " \n"@);
            acc = acc + " \n"@;
        }
        fmt.write_str("{\n");
        proof {
            lemma_emit_concat(t0, w, acc, "{\n"@);
            acc = acc + "{\n"@;
        }
        fmt.write_str("}\n");
        proof {
            lemma_emit_concat(t0, w, acc, "}\n"@);
        }
    }
}

impl GenerateCode for Enum {
    open spec fn code(&self) -> Seq<char> {
        self.text()
    }

    open spec fn fits(&self, width: nat) -> bool {
        true
    }

    fn generate(&self, fmt: &mut Formatter) {
        self.render(fmt)
    }
}

/// A variant of an enum. Its syntax is not settled yet, so it has no contents and no text.
pub struct EnumVariant {}

} // verus!
