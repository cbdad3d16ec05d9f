use vstd::prelude::*;
use vstd::string::*;

use crate::generator::{
    braced, emit, join, lemma_emit_concat, visibility, write_visibility, Formatter, GenerateCode,
    INDENT_UNIT,
};
use crate::nodes::function::{function_texts, functions_fit, render_functions, Function};

verus! {

/// A trait: its functions in a brace block, a blank line between each two.
pub struct Trait {
    public: bool,
    name: String,
    functions: Vec<Function>,
}

impl Trait {
    pub closed spec fn is_public(&self) -> bool {
        self.public
    }

    pub closed spec fn name(&self) -> Seq<char> {
        self.name@
    }

    pub closed spec fn functions(&self) -> Seq<Function> {
        self.functions@
    }

    /// `[pub ]trait NAME `, then the functions in a brace block.
    pub open spec fn text(&self) -> Seq<char> {
        visibility(self.is_public()) + "trait "@ + self.name() + " "@ + braced(
            join(function_texts(self.functions()), "\n"@),
        )
    }

    pub open spec fn fits_in(&self, width: nat) -> bool {
        width + INDENT_UNIT <= usize::MAX && functions_fit(
            self.functions(),
            (width + INDENT_UNIT) as nat,
        )
    }

    /// The state of a trait just created under `name`.
    pub open spec fn fresh(&self, name: Seq<char>) -> bool {
        !self.is_public() && self.name() == name && self.functions() == Seq::<Function>::empty()
    }

    pub fn new(name: &str) -> (r: Self)
        ensures
            r.fresh(name@),
    {
        Trait { public: false, name: String::from_str(name), functions: Vec::new() }
    }

    pub fn set_public(&mut self, public: bool) -> (r: &mut Self)
        ensures
            r.is_public() == public,
            r.name() == old(self).name(),
            r.functions() == old(self).functions(),
            *final(self) == *final(r),
    {
        self.public = public;
        self
    }

    /// Adds a function after the others, to be configured through the returned reference.
    pub fn add_function(&mut self, name: &str) -> (r: &mut Function)
        ensures
            r.fresh(name@),
            final(self).is_public() == old(self).is_public(),
            final(self).name() == old(self).name(),
            final(self).functions() == old(self).functions().push(*final(r)),
    {
        let n = self.functions.len();
        self.functions.push(Function::new(name));
        &mut self.functions[n]
    }

    pub fn render(&self, fmt: &mut Formatter)
        requires
            old(fmt).wf(),
            self.fits_in(old(fmt).width()),
        ensures
            final(fmt).wf(),
            final(fmt).text() == emit(old(fmt).text(), old(fmt).width(), self.text()),
            final(fmt).width() == old(fmt).width(),
    {
        let ghost t0 = fmt.text();
        let ghost w = fmt.width();
        write_visibility(fmt, self.public);
        let ghost mut acc = visibility(self.public);
        fmt.write_str("trait ");
        proof {
            lemma_emit_concat(t0, w, acc, "trait "@);
            acc = acc + "trait "@;
        }
        fmt.write_str(self.name.as_str());
        proof {
            lemma_emit_concat(t0, w, acc, self.name@);
            acc = acc + self.name@;
        }
        fmt.write_str(" ");
        proof {
            lemma_emit_concat(t0, w, acc, " "@);
            acc = acc + " "@;
        }
        render_functions(fmt, &self.functions);
        proof {
            lemma_emit_concat(t0, w, acc, braced(join(function_texts(self.functions@), "\n"@)));
        }
    }
}

impl GenerateCode for Trait {
    open spec fn code(&self) -> Seq<char> {
        self.text()
    }

    open spec fn fits(&self, width: nat) -> bool {
        self.fits_in(width)
    }

    fn generate(&self, fmt: &mut Formatter) {
        self.render(fmt)
    }
}

} // verus!
