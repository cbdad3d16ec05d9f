use vstd::prelude::*;
use vstd::string::*;

use crate::generator::{
    braced, emit, join, lemma_emit_concat, Formatter, GenerateCode, INDENT_UNIT,
};
use crate::nodes::function::{function_texts, functions_fit, render_functions, Function};

verus! {

/// An impl block for a type, of a trait or inherent.
pub struct Impl {
    target: String,
    trait_name: Option<String>,
    functions: Vec<Function>,
}

impl Impl {
    /// The type the functions are for.
    pub closed spec fn target(&self) -> Seq<char> {
        self.target@
    }

    /// The implemented trait, if any.
    pub closed spec fn trait_name(&self) -> Option<Seq<char>> {
        match &self.trait_name {
            Some(t) => Some(t@),
            None => None,
        }
    }

    pub closed spec fn functions(&self) -> Seq<Function> {
        self.functions@
    }

    /// `impl [TRAIT for ]TARGET `, then the functions in a brace block.
    pub open spec fn text(&self) -> Seq<char> {
        "impl "@ + match self.trait_name() {
            Some(t) => t + " for "@,
            None => Seq::empty(),
        } + self.target() + " "@ + braced(join(function_texts(self.functions()), "\n"@))
    }

    pub open spec fn fits_in(&self, width: nat) -> bool {
        width + INDENT_UNIT <= usize::MAX && functions_fit(
            self.functions(),
            (width + INDENT_UNIT) as nat,
        )
    }

    /// The state of an impl block just created for `target`.
    pub open spec fn fresh(&self, target: Seq<char>) -> bool {
        self.target() == target && self.trait_name() == None::<Seq<char>> && self.functions()
            == Seq::<Function>::empty()
    }

    pub fn new(target: &str) -> (r: Self)
        ensures
            r.fresh(target@),
    {
        Impl { target: String::from_str(target), trait_name: None, functions: Vec::new() }
    }

    /// Sets the trait to implement.
    pub fn set_trait(&mut self, trait_name: &str) -> (r: &mut Self)
        ensures
            r.target() == old(self).target(),
            r.trait_name() == Some(trait_name@),
            r.functions() == old(self).functions(),
            *final(self) == *final(r),
    {
        self.trait_name = Some(String::from_str(trait_name));
        self
    }

    /// Adds a function after the others, to be configured through the returned reference.
    pub fn add_function(&mut self, name: &str) -> (r: &mut Function)
        ensures
            r.fresh(name@),
            final(self).target() == old(self).target(),
            final(self).trait_name() == old(self).trait_name(),
            final(self).functions() == old(self).functions().push(*final(r)),
    {
        let n = self.functions.len();
        self.functions.push(Function::new(name));
        &mut self.functions[n]
    }

    pub fn render(&self, fmt: &mut Formatter)
        requires
            old(fmt).wf(),
            self.fits_in(old(fmt).width()),
        ensures
            final(fmt).wf(),
            final(fmt).text() == emit(old(fmt).text(), old(fmt).width(), self.text()),
            final(fmt).width() == old(fmt).width(),
    {
        let ghost t0 = fmt.text();
        let ghost w = fmt.width();
        fmt.write_str("impl ");
        let ghost mut acc = "impl "@;
        match &self.trait_name {
            Some(t) => {
                fmt.write_str(t.as_str());
                proof {
                    lemma_emit_concat(t0, w, acc, t@);
                    acc = acc + t@;
                }
                fmt.write_str(" for ");
                proof {
                    lemma_emit_concat(t0, w, acc, " for "@);
                    acc = acc + " for "@;
                }
            },
            None => {
                proof {
                    assert(acc =~= acc + Seq::<char>::empty());
                }
            },
        }
        fmt.write_str(self.target.as_str());
        proof {
            lemma_emit_concat(t0, w, acc, self.target@);
            acc = acc + self.target@;
        }
        fmt.write_str(" ");
        proof {
            lemma_emit_concat(t0, w, acc, " "@);
            acc = acc + " "@;
        }
        render_functions(fmt, &self.functions);
        proof {
            let b = braced(join(function_texts(self.functions@), "\n"@));
            lemma_emit_concat(t0, w, acc, b);
            assert(acc + b =~= self.text());
        }
    }
}

impl GenerateCode for Impl {
    open spec fn code(&self) -> Seq<char> {
        self.text()
    }

    open spec fn fits(&self, width: nat) -> bool {
        self.fits_in(width)
    }

    fn generate(&self, fmt: &mut Formatter) {
        self.render(fmt)
    }
}

} // verus!
