pub mod const_item;
pub mod enum_item;
pub mod function;
pub mod impl_item;
pub mod statement;
pub mod static_item;
pub mod struct_item;
pub mod trait_item;

use vstd::prelude::*;
use vstd::string::*;

use crate::expr::Expr;
use crate::generator::{
    braced, emit, indented, lemma_emit_concat, lemma_emit_indented,
    lemma_emit_line_start, visibility, write_visibility, Formatter, GenerateCode, INDENT_UNIT,
};
use crate::nodes::const_item::Const;
use crate::nodes::enum_item::Enum;
use crate::nodes::function::Function;
use crate::nodes::impl_item::Impl;
use crate::nodes::static_item::Static;
use crate::nodes::struct_item::Struct;
use crate::nodes::trait_item::Trait;

verus! {

/// Two adjacent declarations stand without a blank line between them when both are constants
/// or both are statics.
pub open spec fn grouped(a: ModuleNode, b: ModuleNode) -> bool {
    (a is Const && b is Const) || (a is Static && b is Static)
}

/// What separates two adjacent declarations: nothing when grouped, else a blank line.
pub open spec fn separator(a: ModuleNode, b: ModuleNode) -> Seq<char> {
    if grouped(a, b) {
        Seq::empty()
    } else {
        "\n"@
    }
}

/// The declarations in order, each adjacent pair apart by its separator.
pub open spec fn declarations_text(s: Seq<ModuleNode>) -> Seq<char>
    decreases s,
{
    if s.len() == 0 {
        Seq::empty()
    } else if s.len() == 1 {
        s[0].text()
    } else {
        declarations_text(s.subrange(0, s.len() - 1)) + separator(s[s.len() - 2], s[s.len() - 1])
            + s[s.len() - 1].text()
    }
}

/// Every declaration of `s` renders at indentation `width`.
pub open spec fn declarations_fit(s: Seq<ModuleNode>, width: nat) -> bool
    decreases s,
{
    if s.len() == 0 {
        true
    } else {
        declarations_fit(s.subrange(0, s.len() - 1), width) && s[s.len() - 1].fits_in(width)
    }
}

pub proof fn lemma_declarations_fit(s: Seq<ModuleNode>, width: nat, i: int)
    requires
        declarations_fit(s, width),
        0 <= i < s.len(),
    ensures
        s[i].fits_in(width),
    decreases s.len(),
{
    if i < s.len() - 1 {
        lemma_declarations_fit(s.subrange(0, s.len() - 1), width, i);
    }
}

/// The declarations of one source file or module body, in the order they were added.
pub struct Module {
    nodes: Vec<ModuleNode>,
}

impl Module {
    /// The declarations, in order.
    pub closed spec fn nodes(&self) -> Seq<ModuleNode> {
        self.nodes@
    }

    /// The declarations in order, apart by their separators.
    pub open spec fn text(&self) -> Seq<char>
        decreases self,
    {
        declarations_text(self.nodes())
    }

    pub open spec fn fits_in(&self, width: nat) -> bool
        decreases self,
    {
        declarations_fit(self.nodes(), width)
    }

    pub fn new() -> (r: Self)
        ensures
            r.nodes() == Seq::<ModuleNode>::empty(),
    {
        Module { nodes: Vec::new() }
    }

    /// Adds a private submodule after the other declarations.
    pub fn add_submodule(&mut self, name: &str) -> (r: &mut Submodule)
        ensures
            r.fresh(name@),
            final(self).nodes() == old(self).nodes().push(ModuleNode::Submodule(*final(r))),
    {
        let n = self.nodes.len();
        self.nodes.push(ModuleNode::Submodule(Submodule::new(name)));
        let slot = match &mut self.nodes[n] {
            ModuleNode::Submodule(x) => Some(x),
            _ => None,
        };
        slot.unwrap()
    }

    /// Adds a private constant after the other declarations.
    pub fn add_const(&mut self, name: &str, ty: &str, value: Expr) -> (r: &mut Const)
        ensures
            r.fresh(name@, ty@, value),
            final(self).nodes() == old(self).nodes().push(ModuleNode::Const(*final(r))),
    {
        let n = self.nodes.len();
        self.nodes.push(ModuleNode::Const(Const::new(name, ty, value)));
        let slot = match &mut self.nodes[n] {
            ModuleNode::Const(x) => Some(x),
            _ => None,
        };
        slot.unwrap()
    }

    /// Adds a private static after the other declarations.
    pub fn add_static(&mut self, name: &str, ty: &str, value: Expr) -> (r: &mut Static)
        ensures
            r.fresh(name@, ty@, value),
            final(self).nodes() == old(self).nodes().push(ModuleNode::Static(*final(r))),
    {
        let n = self.nodes.len();
        self.nodes.push(ModuleNode::Static(Static::new(name, ty, value)));
        let slot = match &mut self.nodes[n] {
            ModuleNode::Static(x) => Some(x),
            _ => None,
        };
        slot.unwrap()
    }

    /// Adds a private struct after the other declarations.
    pub fn add_struct(&mut self, name: &str) -> (r: &mut Struct)
        ensures
            r.fresh(name@),
            final(self).nodes() == old(self).nodes().push(ModuleNode::Struct(*final(r))),
    {
        let n = self.nodes.len();
        self.nodes.push(ModuleNode::Struct(Struct::new(name)));
        let slot = match &mut self.nodes[n] {
            ModuleNode::Struct(x) => Some(x),
            _ => None,
        };
        slot.unwrap()
    }

    /// Adds a private enum after the other declarations.
    pub fn add_enum(&mut self, name: &str) -> (r: &mut Enum)
        ensures
            !r.is_public(),
            r.name() == name@,
            final(self).nodes() == old(self).nodes().push(ModuleNode::Enum(*final(r))),
    {
        let n = self.nodes.len();
        self.nodes.push(ModuleNode::Enum(Enum::new(name)));
        let slot = match &mut self.nodes[n] {
            ModuleNode::Enum(x) => Some(x),
            _ => None,
        };
        slot.unwrap()
    }

    /// Adds a private trait after the other declarations.
    pub fn add_trait(&mut self, name: &str) -> (r: &mut Trait)
        ensures
            r.fresh(name@),
            final(self).nodes() == old(self).nodes().push(ModuleNode::Trait(*final(r))),
    {
        let n = self.nodes.len();
        self.nodes.push(ModuleNode::Trait(Trait::new(name)));
        let slot = match &mut self.nodes[n] {
            ModuleNode::Trait(x) => Some(x),
            _ => None,
        };
        slot.unwrap()
    }

    /// Adds an impl block for `target` after the other declarations.
    pub fn add_impl(&mut self, target: &str) -> (r: &mut Impl)
        ensures
            r.fresh(target@),
            final(self).nodes() == old(self).nodes().push(ModuleNode::Impl(*final(r))),
    {
        let n = self.nodes.len();
        self.nodes.push(ModuleNode::Impl(Impl::new(target)));
        let slot = match &mut self.nodes[n] {
            ModuleNode::Impl(x) => Some(x),
            _ => None,
        };
        slot.unwrap()
    }

    /// Adds a private function after the other declarations.
    pub fn add_function(&mut self, name: &str) -> (r: &mut Function)
        ensures
            r.fresh(name@),
            final(self).nodes() == old(self).nodes().push(ModuleNode::Function(*final(r))),
    {
        let n = self.nodes.len();
        self.nodes.push(ModuleNode::Function(Function::new(name)));
        let slot = match &mut self.nodes[n] {
            ModuleNode::Function(x) => Some(x),
            _ => None,
        };
        slot.unwrap()
    }

    /// Appends the declarations in order, a blank line between two adjacent ones unless both
    /// are constants or both are statics.
    pub fn render(&self, fmt: &mut Formatter)
        requires
            old(fmt).wf(),
            self.fits_in(old(fmt).width()),
        ensures
            final(fmt).wf(),
            final(fmt).text() == emit(old(fmt).text(), old(fmt).width(), self.text()),
            final(fmt).width() == old(fmt).width(),
        decreases self,
    {
        let ghost t0 = fmt.text();
        let ghost w = fmt.width();
        let n = self.nodes.len();
        let mut i: usize = 0;
        while i < n
            invariant
                fmt.wf(),
                fmt.width() == w,
                i <= n,
                n == self.nodes@.len(),
                declarations_fit(self.nodes@, w),
                fmt.text() == emit(t0, w, declarations_text(self.nodes@.take(i as int))),
            decreases n - i,
        {
            let ghost before = declarations_text(self.nodes@.take(i as int));
            let ghost s = self.nodes@;
            if i > 0 && !self.nodes[i - 1].is_grouped_with(&self.nodes[i]) {
                fmt.write_str("\n");
                proof {
                    lemma_emit_concat(t0, w, before, "\n"@);
                }
            }
            let ghost mid = if i > 0 {
                before + separator(s[i - 1], s[i as int])
            } else {
                before
            };
            proof {
                if i > 0 && grouped(s[i - 1], s[i as int]) {
                    assert(mid =~= before);
                }
                lemma_declarations_fit(s, w, i as int);
            }
            self.nodes[i].render(fmt);
            proof {
                let x = s[i as int].text();
                lemma_emit_concat(t0, w, mid, x);
                let t = s.take(i + 1);
                assert(t.subrange(0, t.len() - 1) =~= s.take(i as int));
                if i > 0 {
                    assert(t[t.len() - 2] == s[i - 1]);
                } else {
                    assert(before =~= Seq::<char>::empty());
                    assert(mid + x =~= x);
                }
                assert(mid + x =~= declarations_text(t));
            }
            i = i + 1;
        }
        proof {
            assert(self.nodes@.take(n as int) =~= self.nodes@);
        }
    }

    /// The module's text, rendered into a fresh buffer.
    pub fn to_string(&self) -> (r: String)
        requires
            self.fits_in(0),
        ensures
            r@ == self.text(),
    {
        self.to_code_string()
    }
}

impl Default for Module {
    fn default() -> (r: Self)
        ensures
            r.nodes() == Seq::<ModuleNode>::empty(),
    {
        Module::new()
    }
}

impl GenerateCode for Module {
    open spec fn code(&self) -> Seq<char> {
        self.text()
    }

    open spec fn fits(&self, width: nat) -> bool {
        self.fits_in(width)
    }

    fn generate(&self, fmt: &mut Formatter) {
        self.render(fmt)
    }
}

/// A declaration that can stand in a module.
#[non_exhaustive]
pub enum ModuleNode {
    Submodule(Submodule),
    Const(Const),
    Static(Static),
    Struct(Struct),
    Enum(Enum),
    Trait(Trait),
    Impl(Impl),
    Function(Function),
}

impl ModuleNode {
    pub open spec fn text(&self) -> Seq<char>
        decreases self,
    {
        match self {
            ModuleNode::Submodule(x) => x.text(),
            ModuleNode::Const(x) => x.text(),
            ModuleNode::Static(x) => x.text(),
            ModuleNode::Struct(x) => x.text(),
            ModuleNode::Enum(x) => x.text(),
            ModuleNode::Trait(x) => x.text(),
            ModuleNode::Impl(x) => x.text(),
            ModuleNode::Function(x) => x.text(),
        }
    }

    pub open spec fn fits_in(&self, width: nat) -> bool
        decreases self,
    {
        match self {
            ModuleNode::Submodule(x) => x.fits_in(width),
            ModuleNode::Const(x) => x.fits_in(width),
            ModuleNode::Static(x) => x.fits_in(width),
            ModuleNode::Struct(x) => x.fits_in(width),
            ModuleNode::Enum(_) => true,
            ModuleNode::Trait(x) => x.fits_in(width),
            ModuleNode::Impl(x) => x.fits_in(width),
            ModuleNode::Function(x) => x.fits_in(width),
        }
    }

    /// Whether this declaration and the next stand without a blank line between them.
    pub fn is_grouped_with(&self, next: &ModuleNode) -> (r: bool)
        ensures
            r == grouped(*self, *next),
    {
        match (self, next) {
            (ModuleNode::Const(_), ModuleNode::Const(_)) => true,
            (ModuleNode::Static(_), ModuleNode::Static(_)) => true,
            _ => false,
        }
    }

    pub fn render(&self, fmt: &mut Formatter)
        requires
            old(fmt).wf(),
            self.fits_in(old(fmt).width()),
        ensures
            final(fmt).wf(),
            final(fmt).text() == emit(old(fmt).text(), old(fmt).width(), self.text()),
            final(fmt).width() == old(fmt).width(),
        decreases self,
    {
        match self {
            ModuleNode::Submodule(x) => x.render(fmt),
            ModuleNode::Const(x) => x.render(fmt),
            ModuleNode::Static(x) => x.render(fmt),
            ModuleNode::Struct(x) => x.render(fmt),
            ModuleNode::Enum(x) => x.render(fmt),
            ModuleNode::Trait(x) => x.render(fmt),
            ModuleNode::Impl(x) => x.render(fmt),
            ModuleNode::Function(x) => x.render(fmt),
        }
    }
}

impl GenerateCode for ModuleNode {
    open spec fn code(&self) -> Seq<char> {
        self.text()
    }

    open spec fn fits(&self, width: nat) -> bool {
        self.fits_in(width)
    }

    fn generate(&self, fmt: &mut Formatter) {
        self.render(fmt)
    }
}

/// A nested module: `[pub ]mod NAME `, then its declarations in a brace block.
pub struct Submodule {
    public: bool,
    name: String,
    module: Module,
}

impl Submodule {
    pub closed spec fn is_public(&self) -> bool {
        self.public
    }

    pub closed spec fn name(&self) -> Seq<char> {
        self.name@
    }

    /// The nested module's declarations.
    pub closed spec fn module(&self) -> Module {
        self.module
    }

    /// `[pub ]mod NAME `, then the nested module's text in a brace block.
    pub open spec fn text(&self) -> Seq<char>
        decreases self,
    {
        visibility(self.is_public()) + "mod "@ + self.name() + " "@ + braced(self.module().text())
    }

    pub open spec fn fits_in(&self, width: nat) -> bool
        decreases self,
    {
        width + INDENT_UNIT <= usize::MAX && self.module().fits_in((width + INDENT_UNIT) as nat)
    }

    /// The state of a submodule just created under `name`.
    pub open spec fn fresh(&self, name: Seq<char>) -> bool {
        !self.is_public() && self.name() == name && self.module().nodes()
            == Seq::<ModuleNode>::empty()
    }

    pub fn new(name: &str) -> (r: Self)
        ensures
            r.fresh(name@),
    {
        Submodule { public: false, name: String::from_str(name), module: Module::new() }
    }

    pub fn set_public(&mut self, public: bool) -> (r: &mut Self)
        ensures
            r.is_public() == public,
            r.name() == old(self).name(),
            r.module() == old(self).module(),
            *final(self) == *final(r),
    {
        self.public = public;
        self
    }

    pub fn add_submodule(&mut self, name: &str) -> (r: &mut Submodule)
        ensures
            r.fresh(name@),
            final(self).is_public() == old(self).is_public(),
            final(self).name() == old(self).name(),
            final(self).module().nodes() == old(self).module().nodes().push(
                ModuleNode::Submodule(*final(r)),
            ),
    {
        self.module.add_submodule(name)
    }

    pub fn add_const(&mut self, name: &str, ty: &str, value: Expr) -> (r: &mut Const)
        ensures
            r.fresh(name@, ty@, value),
            final(self).is_public() == old(self).is_public(),
            final(self).name() == old(self).name(),
            final(self).module().nodes() == old(self).module().nodes().push(
                ModuleNode::Const(*final(r)),
            ),
    {
        self.module.add_const(name, ty, value)
    }

    pub fn add_static(&mut self, name: &str, ty: &str, value: Expr) -> (r: &mut Static)
        ensures
            r.fresh(name@, ty@, value),
            final(self).is_public() == old(self).is_public(),
            final(self).name() == old(self).name(),
            final(self).module().nodes() == old(self).module().nodes().push(
                ModuleNode::Static(*final(r)),
            ),
    {
        self.module.add_static(name, ty, value)
    }

    pub fn add_struct(&mut self, name: &str) -> (r: &mut Struct)
        ensures
            r.fresh(name@),
            final(self).is_public() == old(self).is_public(),
            final(self).name() == old(self).name(),
            final(self).module().nodes() == old(self).module().nodes().push(
                ModuleNode::Struct(*final(r)),
            ),
    {
        self.module.add_struct(name)
    }

    pub fn add_enum(&mut self, name: &str) -> (r: &mut Enum)
        ensures
            !r.is_public(),
            r.name() == name@,
            final(self).is_public() == old(self).is_public(),
            final(self).name() == old(self).name(),
            final(self).module().nodes() == old(self).module().nodes().push(
                ModuleNode::Enum(*final(r)),
            ),
    {
        self.module.add_enum(name)
    }

    pub fn add_trait(&mut self, name: &str) -> (r: &mut Trait)
        ensures
            r.fresh(name@),
            final(self).is_public() == old(self).is_public(),
            final(self).name() == old(self).name(),
            final(self).module().nodes() == old(self).module().nodes().push(
                ModuleNode::Trait(*final(r)),
            ),
    {
        self.module.add_trait(name)
    }

    pub fn add_impl(&mut self, target: &str) -> (r: &mut Impl)
        ensures
            r.fresh(target@),
            final(self).is_public() == old(self).is_public(),
            final(self).name() == old(self).name(),
            final(self).module().nodes() == old(self).module().nodes().push(
                ModuleNode::Impl(*final(r)),
            ),
    {
        self.module.add_impl(target)
    }

    pub fn add_function(&mut self, name: &str) -> (r: &mut Function)
        ensures
            r.fresh(name@),
            final(self).is_public() == old(self).is_public(),
            final(self).name() == old(self).name(),
            final(self).module().nodes() == old(self).module().nodes().push(
                ModuleNode::Function(*final(r)),
            ),
    {
        self.module.add_function(name)
    }

    pub fn render(&self, fmt: &mut Formatter)
        requires
            old(fmt).wf(),
            self.fits_in(old(fmt).width()),
        ensures
            final(fmt).wf(),
            final(fmt).text() == emit(old(fmt).text(), old(fmt).width(), self.text()),
            final(fmt).width() == old(fmt).width(),
        decreases self,
    {
        let ghost t0 = fmt.text();
        let ghost w = fmt.width();
        proof {
            reveal_strlit("{\n");
        }
        write_visibility(fmt, self.public);
        let ghost mut acc = visibility(self.public);
        fmt.write_str("mod ");
        proof {
            lemma_emit_concat(t0, w, acc, "mod "@);
            acc = acc + "mod "@;
        }
        fmt.write_str(self.name.as_str());
        proof {
            lemma_emit_concat(t0, w, acc, self.name@);
            acc = acc + self.name@;
        }
        fmt.write_str(" ");
        proof {
            lemma_emit_concat(t0, w, acc, " "@);
            acc = acc + " "@;
        }
        fmt.write_str("{\n");
        proof {
            lemma_emit_concat(t0, w, acc, "{\n"@);
            acc = acc + "{\n"@;
            lemma_emit_line_start(t0, w, acc);
        }
        let ghost t1 = fmt.text();
        fmt.enter();
        self.module.render(fmt);
        fmt.leave();
        fmt.write_str("}\n");
        proof {
            let body = self.module.text();
            lemma_emit_indented(t1, w, body);
            lemma_emit_concat(t0, w, acc, indented(body));
            lemma_emit_concat(t0, w, acc + indented(body), "}\n"@);
            assert(acc + indented(body) + "}\n"@ =~= self.text());
        }
    }
}

impl GenerateCode for Submodule {
    open spec fn code(&self) -> Seq<char> {
        self.text()
    }

    open spec fn fits(&self, width: nat) -> bool {
        self.fits_in(width)
    }

    fn generate(&self, fmt: &mut Formatter) {
        self.render(fmt)
    }
}

/// Every declaration's text ends a line.
pub proof fn lemma_declaration_ends_line(node: ModuleNode)
    ensures
        node.text().len() > 0,
        node.text().last() == '\n',
{
    reveal_strlit("}\n");
    reveal_strlit(";\n");
    let t = node.text();
    let tail = match node {
        ModuleNode::Const(_) => ";\n"@,
        ModuleNode::Static(_) => ";\n"@,
        ModuleNode::Function(f) => match f.body() {
            Some(_) => "}\n"@,
            None => ";\n"@,
        },
        _ => "}\n"@,
    };
    assert(tail.len() == 2 && tail.last() == '\n');
    match node {
        ModuleNode::Function(f) => match f.body() {
            Some(b) => {
                assert(t =~= f.signature() + " "@ + "{\n"@ + indented(
                    statement::statement_lines(b.statements()),
                ) + tail);
            },
            None => {
                assert(t =~= f.signature() + tail);
            },
        },
        _ => {},
    }
    assert(t.len() >= 2);
    assert(t[t.len() - 1] == tail[1]);
}

/// The text of a non-empty run of declarations ends with the last character of its last
/// declaration.
pub proof fn lemma_declarations_end(s: Seq<ModuleNode>)
    requires
        s.len() > 0,
    ensures
        declarations_text(s).len() >= s.last().text().len(),
        declarations_text(s).last() == s.last().text().last(),
{
    lemma_declaration_ends_line(s.last());
}

/// Separator rule: two adjacent declarations stand apart by a blank line, unless both are
/// constants or both are statics, in which case the second follows the first directly. The rule
/// looks at the adjacent pair only: the text of the first `i + 2` declarations is the text of the
/// first `i + 1`, which ends a line, then the separator, then the next declaration's text.
pub proof fn lemma_module_separator(m: &Module, i: int)
    requires
        0 <= i,
        i + 1 < m.nodes().len(),
    ensures
        m.text() == declarations_text(m.nodes()),
        declarations_text(m.nodes().take(i + 2)) == declarations_text(m.nodes().take(i + 1))
            + separator(m.nodes()[i], m.nodes()[i + 1]) + m.nodes()[i + 1].text(),
        declarations_text(m.nodes().take(i + 1)).last() == '\n',
        separator(m.nodes()[i], m.nodes()[i + 1]) == if grouped(m.nodes()[i], m.nodes()[i + 1]) {
            Seq::<char>::empty()
        } else {
            seq!['\n']
        },
{
    reveal_strlit("\n");
    let s = m.nodes();
    let t = s.take(i + 2);
    assert(t.subrange(0, t.len() - 1) =~= s.take(i + 1));
    assert(t[t.len() - 2] == s[i]);
    assert(t[t.len() - 1] == s[i + 1]);
    lemma_declarations_end(s.take(i + 1));
    lemma_declaration_ends_line(s[i]);
    assert(s.take(i + 1).last() == s[i]);
}

} // verus!
