use vstd::prelude::*;
use vstd::string::*;

use crate::generator::{
    at_line_start, braced, concat, emit, indented, lemma_concat_push, lemma_emit_concat,
    lemma_emit_indented, lemma_emit_line_start, visibility, write_visibility, Formatter,
    GenerateCode, INDENT_UNIT,
};

verus! {

/// The texts of the fields, in order.
pub open spec fn field_texts(fields: Seq<Field>) -> Seq<Seq<char>> {
    fields.map_values(|f: Field| f.text())
}

/// A struct with named fields.
pub struct Struct {
    public: bool,
    name: String,
    fields: Vec<Field>,
}

impl Struct {
    pub closed spec fn is_public(&self) -> bool {
        self.public
    }

    pub closed spec fn name(&self) -> Seq<char> {
        self.name@
    }

    pub closed spec fn fields(&self) -> Seq<Field> {
        self.fields@
    }

    /// `[pub ]struct NAME `, then the fields one per line in a brace block.
    pub open spec fn text(&self) -> Seq<char> {
        visibility(self.is_public()) + "struct "@ + self.name() + " "@ + braced(
            concat(field_texts(self.fields())),
        )
    }

    pub open spec fn fits_in(&self, width: nat) -> bool {
        width + INDENT_UNIT <= usize::MAX
    }

    /// The state of a struct just created under `name`.
    pub open spec fn fresh(&self, name: Seq<char>) -> bool {
        !self.is_public() && self.name() == name && self.fields() == Seq::<Field>::empty()
    }

    pub fn new(name: &str) -> (r: Self)
        ensures
            r.fresh(name@),
    {
        Struct { public: false, name: String::from_str(name), fields: Vec::new() }
    }

    pub fn set_public(&mut self, public: bool) -> (r: &mut Self)
        ensures
            r.is_public() == public,
            r.name() == old(self).name(),
            r.fields() == old(self).fields(),
            *final(self) == *final(r),
    {
        self.public = public;
        self
    }

    /// Adds a private field `NAME: TYPE` after the others, to be configured through the
    /// returned reference.
    pub fn add_field(&mut self, name: &str, ty: &str) -> (r: &mut Field)
        ensures
            r.fresh(name@, ty@),
            final(self).is_public() == old(self).is_public(),
            final(self).name() == old(self).name(),
            final(self).fields() == old(self).fields().push(*final(r)),
    {
        let n = self.fields.len();
        self.fields.push(Field::new(name, ty));
        &mut self.fields[n]
    }

    pub fn render(&self, fmt: &mut Formatter)
        requires
            old(fmt).wf(),
            self.fits_in(old(fmt).width()),
        ensures
            final(fmt).wf(),
            final(fmt).text() == emit(old(fmt).text(), old(fmt).width(), self.text()),
            final(fmt).width() == old(fmt).width(),
    {
        let ghost t0 = fmt.text();
        let ghost w = fmt.width();
        proof {
            reveal_strlit("{\n");
        }
        write_visibility(fmt, self.public);
        let ghost mut acc = visibility(self.public);
        fmt.write_str("struct ");
        proof {
            lemma_emit_concat(t0, w, acc, "struct "@);
            acc = acc + "struct "@;
        }
        fmt.write_str(self.name.as_str());
        proof {
            lemma_emit_concat(t0, w, acc, self.name@);
            acc = acc + self.name@;
        }
        fmt.write_str(" ");
        proof {
            lemma_emit_concat(t0, w, acc, " "@);
            acc = acc + " "@;
        }
        fmt.write_str("{\n");
        proof {
            lemma_emit_concat(t0, w, acc, "{\n"@);
            acc = acc + "{\n"@;
            lemma_emit_line_start(t0, w, acc);
        }
        let ghost t1 = fmt.text();
        let ghost inner = (w + INDENT_UNIT) as nat;
        fmt.enter();
        let n = self.fields.len();
        let mut i: usize = 0;
        while i < n
            invariant
                fmt.wf(),
                fmt.width() == inner,
                at_line_start(t1),
                i <= n,
                n == self.fields@.len(),
                fmt.text() == emit(t1, inner, concat(field_texts(self.fields@.take(i as int)))),
            decreases n - i,
        {
            let ghost before = concat(field_texts(self.fields@.take(i as int)));
            let ghost x = self.fields@[i as int].text();
            self.fields[i].render(fmt);
            proof {
                lemma_emit_concat(t1, inner, before, x);
                assert(field_texts(self.fields@.take(i + 1)) =~= field_texts(
                    self.fields@.take(i as int),
                ).push(x));
                lemma_concat_push(field_texts(self.fields@.take(i as int)), x);
            }
            i = i + 1;
        }
        fmt.leave();
        fmt.write_str("}\n");
        proof {
            assert(self.fields@.take(n as int) =~= self.fields@);
            let body = concat(field_texts(self.fields@));
            lemma_emit_indented(t1, w, body);
            lemma_emit_concat(t0, w, acc, indented(body));
            lemma_emit_concat(t0, w, acc + indented(body), "}\n"@);
            assert(acc + indented(body) + "}\n"@ =~= self.text());
        }
    }
}

impl GenerateCode for Struct {
    open spec fn code(&self) -> Seq<char> {
        self.text()
    }

    open spec fn fits(&self, width: nat) -> bool {
        self.fits_in(width)
    }

    fn generate(&self, fmt: &mut Formatter) {
        self.render(fmt)
    }
}

/// A named field of a struct: `[pub ]NAME: TYPE,` on a line of its own.
pub struct Field {
    public: bool,
    name: String,
    ty: String,
}

impl Field {
    pub closed spec fn is_public(&self) -> bool {
        self.public
    }

    pub closed spec fn name(&self) -> Seq<char> {
        self.name@
    }

    pub closed spec fn field_type(&self) -> Seq<char> {
        self.ty@
    }

    pub open spec fn text(&self) -> Seq<char> {
        visibility(self.is_public()) + self.name() + ": "@ + self.field_type() + ",\n"@
    }

    /// The state of a field just created from these parts.
    pub open spec fn fresh(&self, name: Seq<char>, ty: Seq<char>) -> bool {
        !self.is_public() && self.name() == name && self.field_type() == ty
    }

    pub fn new(name: &str, ty: &str) -> (r: Self)
        ensures
            r.fresh(name@, ty@),
    {
        Field { public: false, name: String::from_str(name), ty: String::from_str(ty) }
    }

    pub fn set_public(&mut self, public: bool) -> (r: &mut Self)
        ensures
            r.is_public() == public,
            r.name() == old(self).name(),
            r.field_type() == old(self).field_type(),
            *final(self) == *final(r),
    {
        self.public = public;
        self
    }

    pub fn render(&self, fmt: &mut Formatter)
        requires
            old(fmt).wf(),
        ensures
            final(fmt).wf(),
            final(fmt).text() == emit(old(fmt).text(), old(fmt).width(), self.text()),
            final(fmt).width() == old(fmt).width(),
    {
        let ghost t0 = fmt.text();
        let ghost w = fmt.width();
        write_visibility(fmt, self.public);
        let ghost mut acc = visibility(self.public);
        fmt.write_str(self.name.as_str());
        proof {
            lemma_emit_concat(t0, w, acc, self.name@);
            acc = acc + self.name@;
        }
        fmt.write_str(": ");
        proof {
            lemma_emit_concat(t0, w, acc, ": "@);
            acc = acc + ": "@;
        }
        fmt.write_str(self.ty.as_str());
        proof {
            lemma_emit_concat(t0, w, acc, self.ty@);
            acc = acc + self.ty@;
        }
        fmt.write_str(",\n");
        proof {
            lemma_emit_concat(t0, w, acc, ",\n"@);
        }
    }
}

impl GenerateCode for Field {
    open spec fn code(&self) -> Seq<char> {
        self.text()
    }

    open spec fn fits(&self, width: nat) -> bool {
        true
    }

    fn generate(&self, fmt: &mut Formatter) {
        self.render(fmt)
    }
}

} // verus!
