use vstd::prelude::*;
use vstd::string::*;

verus! {

/// Width of one indentation level.
pub const INDENT_UNIT: usize = 4;

/// `n` space characters.
pub open spec fn spaces(n: nat) -> Seq<char> {
    Seq::new(n, |i: int| ' ')
}

/// True at the start of a fresh output line: nothing written yet, or a newline last.
pub open spec fn at_line_start(out: Seq<char>) -> bool {
    out.len() == 0 || out.last() == '\n'
}

/// Whether a line starts after `s` has been laid out, given whether one started before it.
pub open spec fn after(start: bool, s: Seq<char>) -> bool {
    if s.len() == 0 {
        start
    } else {
        s.last() == '\n'
    }
}

/// The characters of `s` as they reach the output at indentation `width`: every character that
/// opens a non-empty line gets `width` spaces before it; everything else passes unchanged.
/// `start` says whether the output stands at the start of a line before `s`.
pub open spec fn lay(start: bool, width: nat, s: Seq<char>) -> Seq<char>
    decreases s.len(),
{
    if s.len() == 0 {
        Seq::empty()
    } else {
        let c = s[0];
        let pad = if start && c != '\n' {
            spaces(width)
        } else {
            Seq::empty()
        };
        pad.push(c) + lay(c == '\n', width, s.drop_first())
    }
}

/// The output after `s` is appended to `out` at indentation `width`.
pub open spec fn emit(out: Seq<char>, width: nat, s: Seq<char>) -> Seq<char> {
    out + lay(at_line_start(out), width, s)
}

/// Text laid out one indentation level deeper, starting at the start of a line.
pub open spec fn indented(s: Seq<char>) -> Seq<char> {
    lay(true, INDENT_UNIT as nat, s)
}

/// The parts with `sep` between each two.
pub open spec fn join(parts: Seq<Seq<char>>, sep: Seq<char>) -> Seq<char>
    decreases parts.len(),
{
    if parts.len() == 0 {
        Seq::empty()
    } else if parts.len() == 1 {
        parts[0]
    } else {
        join(parts.drop_last(), sep) + sep + parts.last()
    }
}

/// The parts, each followed by `term`.
pub open spec fn terminated(parts: Seq<Seq<char>>, term: Seq<char>) -> Seq<char>
    decreases parts.len(),
{
    if parts.len() == 0 {
        Seq::empty()
    } else {
        terminated(parts.drop_last(), term) + parts.last() + term
    }
}

pub proof fn lemma_join_push(parts: Seq<Seq<char>>, x: Seq<char>, sep: Seq<char>)
    ensures
        join(parts.push(x), sep) == if parts.len() == 0 {
            x
        } else {
            join(parts, sep) + sep + x
        },
{
    assert(parts.push(x).drop_last() =~= parts);
}

pub proof fn lemma_terminated_push(parts: Seq<Seq<char>>, x: Seq<char>, term: Seq<char>)
    ensures
        terminated(parts.push(x), term) == terminated(parts, term) + x + term,
{
    assert(parts.push(x).drop_last() =~= parts);
}

/// A brace block: `{`, the body one level deeper, `}`, each brace ending a line.
pub open spec fn braced(body: Seq<char>) -> Seq<char> {
    "{\n"@ + indented(body) + "}\n"@
}

/// The parts one after the other.
pub open spec fn concat(parts: Seq<Seq<char>>) -> Seq<char>
    decreases parts.len(),
{
    if parts.len() == 0 {
        Seq::empty()
    } else {
        concat(parts.drop_last()) + parts.last()
    }
}

pub proof fn lemma_concat_push(parts: Seq<Seq<char>>, x: Seq<char>)
    ensures
        concat(parts.push(x)) == concat(parts) + x,
{
    assert(parts.push(x).drop_last() =~= parts);
}

/// Laying out a concatenation is laying out its parts one after the other.
pub proof fn lemma_lay_concat(start: bool, width: nat, a: Seq<char>, b: Seq<char>)
    ensures
        lay(start, width, a + b) == lay(start, width, a) + lay(after(start, a), width, b),
    decreases a.len(),
{
    if a.len() == 0 {
        assert(a + b =~= b);
        assert(lay(start, width, a) =~= Seq::<char>::empty());
        assert(lay(start, width, a + b) =~= lay(start, width, a) + lay(after(start, a), width, b));
    } else {
        let c = a[0];
        assert((a + b)[0] == c);
        assert((a + b).drop_first() =~= a.drop_first() + b);
        lemma_lay_concat(c == '\n', width, a.drop_first(), b);
        assert(after(start, a) == after(c == '\n', a.drop_first()));
        let pad = if start && c != '\n' {
            spaces(width)
        } else {
            Seq::<char>::empty()
        };
        assert(lay(start, width, a + b) =~= pad.push(c) + lay(c == '\n', width, a.drop_first() + b));
        assert(lay(start, width, a + b) =~= lay(start, width, a) + lay(after(start, a), width, b));
    }
}

/// Laying out one character.
pub proof fn lemma_lay_one(start: bool, width: nat, c: char)
    ensures
        lay(start, width, seq![c]) == (if start && c != '\n' {
            spaces(width)
        } else {
            Seq::<char>::empty()
        }).push(c),
{
    let s = seq![c];
    assert(s.drop_first() =~= Seq::<char>::empty());
    assert(lay(c == '\n', width, s.drop_first()) =~= Seq::<char>::empty());
    assert(s[0] == c);
    let pad = if start && c != '\n' {
        spaces(width)
    } else {
        Seq::<char>::empty()
    };
    assert(lay(start, width, s) =~= pad.push(c));
}

/// Text without a newline that does not open a line passes unchanged.
pub proof fn lemma_lay_inline(width: nat, s: Seq<char>)
    requires
        forall|i: int| 0 <= i < s.len() ==> s[i] != '\n',
    ensures
        lay(false, width, s) == s,
    decreases s.len(),
{
    if s.len() > 0 {
        lemma_lay_inline(width, s.drop_first());
        assert(lay(false, width, s) =~= s);
    }
}

/// At indentation zero the layout is the text itself.
pub proof fn lemma_lay_zero(start: bool, s: Seq<char>)
    ensures
        lay(start, 0, s) == s,
    decreases s.len(),
{
    if s.len() > 0 {
        lemma_lay_zero(s[0] == '\n', s.drop_first());
        assert(spaces(0) =~= Seq::<char>::empty());
        assert(lay(start, 0, s) =~= s);
    }
}

/// The layout ends a line exactly where the text does.
pub proof fn lemma_lay_after(start: bool, width: nat, s: Seq<char>)
    ensures
        after(start, lay(start, width, s)) == after(start, s),
    decreases s.len(),
{
    if s.len() > 0 {
        let c = s[0];
        lemma_lay_after(c == '\n', width, s.drop_first());
        let pad = if start && c != '\n' {
            spaces(width)
        } else {
            Seq::<char>::empty()
        };
        let rest = lay(c == '\n', width, s.drop_first());
        if s.len() == 1 {
            assert(s.drop_first().len() == 0);
            assert(rest =~= Seq::<char>::empty());
            assert(pad.push(c) + rest =~= pad.push(c));
        } else {
            assert(rest.len() > 0);
        }
    }
}

/// Appending at line start is appending the text, as far as line starts go.
pub proof fn lemma_emit_line_start(out: Seq<char>, width: nat, s: Seq<char>)
    ensures
        at_line_start(emit(out, width, s)) == after(at_line_start(out), s),
{
    lemma_lay_after(at_line_start(out), width, s);
    let l = lay(at_line_start(out), width, s);
    if l.len() > 0 {
        assert((out + l).last() == l.last());
    } else {
        assert(out + l =~= out);
    }
}

/// Two appends at one indentation are one append of the concatenation.
pub proof fn lemma_emit_concat(out: Seq<char>, width: nat, a: Seq<char>, b: Seq<char>)
    ensures
        emit(emit(out, width, a), width, b) == emit(out, width, a + b),
{
    lemma_emit_line_start(out, width, a);
    lemma_lay_concat(at_line_start(out), width, a, b);
    assert(emit(emit(out, width, a), width, b) =~= emit(out, width, a + b));
}

/// Layout nests: text laid out `inner` deeper, then at `outer`, is the text at `outer + inner`.
pub proof fn lemma_lay_nest(start: bool, outer: nat, inner: nat, s: Seq<char>)
    ensures
        lay(start, outer, lay(start, inner, s)) == lay(start, outer + inner, s),
    decreases s.len(),
{
    if s.len() > 0 {
        let c = s[0];
        let rest = s.drop_first();
        lemma_lay_nest(c == '\n', outer, inner, rest);
        let pad = if start && c != '\n' {
            spaces(inner)
        } else {
            Seq::<char>::empty()
        };
        let head = pad.push(c);
        lemma_lay_concat(start, outer, head, lay(c == '\n', inner, rest));
        assert(after(start, head) == (c == '\n'));
        if start && c != '\n' {
            if inner == 0 {
                assert(head =~= seq![c]);
                lemma_lay_one(start, outer, c);
                assert(spaces(outer + inner) =~= spaces(outer));
            } else {
                let tail = spaces((inner - 1) as nat).push(c);
                assert(head =~= seq![' '] + tail);
                assert(head[0] == ' ');
                assert(head.drop_first() =~= tail);
                lemma_lay_inline(outer, tail);
                assert(lay(start, outer, head) =~= spaces(outer).push(' ') + tail);
                assert(spaces(outer).push(' ') + tail =~= spaces(outer + inner).push(c));
            }
        } else {
            assert(head =~= seq![c]);
            lemma_lay_one(start, outer, c);
            assert(lay(start, outer, head) =~= seq![c]);
        }
        assert(lay(start, outer, lay(start, inner, s)) =~= lay(start, outer + inner, s));
    }
}

/// Appending at one level deeper, from the start of a line, is appending the indented text.
pub proof fn lemma_emit_indented(out: Seq<char>, width: nat, s: Seq<char>)
    requires
        at_line_start(out),
    ensures
        emit(out, (width + INDENT_UNIT) as nat, s) == emit(out, width, indented(s)),
{
    lemma_lay_nest(true, width, INDENT_UNIT as nat, s);
}

/// Text with no newline in it.
pub open spec fn single_line(s: Seq<char>) -> bool {
    forall|i: int| 0 <= i < s.len() ==> s[i] != '\n'
}

pub proof fn lemma_single_line_concat(a: Seq<char>, b: Seq<char>)
    requires
        single_line(a),
        single_line(b),
    ensures
        single_line(a + b),
{
    assert forall|i: int| 0 <= i < (a + b).len() implies (a + b)[i] != '\n' by {
        if i >= a.len() {
            assert((a + b)[i] == b[i - a.len()]);
        }
    }
}

/// Parts with no newline, joined by a separator with none, hold none.
pub proof fn lemma_join_single_line(parts: Seq<Seq<char>>, sep: Seq<char>)
    requires
        single_line(sep),
        forall|i: int| 0 <= i < parts.len() ==> single_line(#[trigger] parts[i]),
    ensures
        single_line(join(parts, sep)),
    decreases parts.len(),
{
    if parts.len() > 1 {
        let init = parts.drop_last();
        assert forall|i: int| 0 <= i < init.len() implies single_line(#[trigger] init[i]) by {
            assert(init[i] == parts[i]);
        }
        lemma_join_single_line(init, sep);
        lemma_single_line_concat(join(init, sep), sep);
        lemma_single_line_concat(join(init, sep) + sep, parts.last());
    } else if parts.len() == 1 {
        assert(single_line(parts[0]));
    }
}

/// Indentation: a non-empty line that opens at the start of a line, written at nesting depth
/// `depth`, is prefixed with exactly one indentation unit of spaces per level. Together with
/// `lemma_lay_nest`, which composes levels, this holds recursively at any depth.
pub proof fn lemma_line_indentation(depth: nat, line: Seq<char>)
    requires
        line.len() > 0,
        single_line(line),
    ensures
        lay(true, (INDENT_UNIT * depth) as nat, line.push('\n')) == spaces(
            (INDENT_UNIT * depth) as nat,
        ) + line.push('\n'),
{
    let w = (INDENT_UNIT * depth) as nat;
    let s = line.push('\n');
    let rest = line.drop_first();
    assert(s[0] == line[0]);
    assert(s.drop_first() =~= rest + seq!['\n']);
    assert forall|i: int| 0 <= i < rest.len() implies rest[i] != '\n' by {
        assert(rest[i] == line[i + 1]);
    }
    lemma_lay_inline(w, rest);
    lemma_lay_concat(false, w, rest, seq!['\n']);
    if rest.len() > 0 {
        assert(rest.last() == line.last());
    }
    lemma_lay_one(after(false, rest), w, '\n');
    assert(lay(true, w, s) =~= spaces(w) + s);
}

/// Rendering is deterministic: one node rendered twice from equal formatter states gives
/// identical text.
pub proof fn lemma_render_deterministic<T: GenerateCode>(
    node: &T,
    out: Seq<char>,
    width: nat,
    first: Seq<char>,
    second: Seq<char>,
)
    requires
        first == emit(out, width, node.code()),
        second == emit(out, width, node.code()),
    ensures
        first == second,
{
}

/// An indentation-aware text sink.
pub struct Formatter {
    dst: String,
    indent: usize,
    line_start: bool,
}

impl Formatter {
    /// The formatter knows whether its text stands at the start of a line.
    pub closed spec fn wf(&self) -> bool {
        self.line_start == at_line_start(self.dst@)
    }

    /// The text written so far.
    pub closed spec fn text(&self) -> Seq<char> {
        self.dst@
    }

    /// The current indentation, in spaces.
    pub closed spec fn width(&self) -> nat {
        self.indent as nat
    }

    /// A formatter that appends to `dst`, at indentation zero.
    pub fn new(dst: String) -> (r: Self)
        ensures
            r.wf(),
            r.text() == dst@,
            r.width() == 0,
    {
        let n = dst.as_str().unicode_len();
        let line_start = n == 0 || dst.as_str().get_char(n - 1) == '\n';
        Formatter { dst, indent: 0, line_start }
    }

    /// The text written so far.
    pub fn into_string(self) -> (r: String)
        ensures
            r@ == self.text(),
    {
        self.dst
    }

    /// Appends `s`, indenting each non-empty line that opens at the start of a line.
    pub fn write_str(&mut self, s: &str)
        requires
            old(self).wf(),
        ensures
            final(self).wf(),
            final(self).text() == emit(old(self).text(), old(self).width(), s@),
            final(self).width() == old(self).width(),
    {
        let ghost out0 = self.dst@;
        let ghost start = self.line_start;
        let n = s.unicode_len();
        let mut i: usize = 0;
        while i < n
            invariant
                i <= n,
                n == s@.len(),
                start == at_line_start(out0),
                self.indent == old(self).indent,
                self.dst@ == out0 + lay(start, self.indent as nat, s@.take(i as int)),
                self.line_start == at_line_start(self.dst@),
            decreases n - i,
        {
            let c = s.get_char(i);
            if self.line_start && c != '\n' {
                self.push_spaces();
            }
            self.dst.append(s.substring_char(i, i + 1));
            proof {
                let w = self.indent as nat;
                let done = s@.take(i as int);
                assert(s@.take(i + 1) =~= done + seq![c]);
                lemma_lay_concat(start, w, done, seq![c]);
                lemma_emit_line_start(out0, w, done);
                lemma_lay_one(after(start, done), w, c);
                assert(s@.subrange(i as int, i + 1) =~= seq![c]);
                assert(self.dst@ =~= out0 + lay(start, w, s@.take(i + 1)));
            }
            i = i + 1;
            self.line_start = c == '\n';
        }
        proof {
            assert(s@.take(n as int) =~= s@);
        }
    }

    /// True iff nothing has been written yet or the last character written is a newline.
    pub fn is_start_of_line(&self) -> (r: bool)
        requires
            self.wf(),
        ensures
            r == at_line_start(self.text()),
    {
        self.line_start
    }

    /// Writes as many spaces as the current indentation.
    pub fn push_spaces(&mut self)
        requires
            old(self).wf(),
        ensures
            final(self).wf(),
            final(self).text() == old(self).text() + spaces(old(self).width()),
            final(self).width() == old(self).width(),
    {
        let ghost out0 = self.dst@;
        let mut i: usize = 0;
        while i < self.indent
            invariant
                i <= self.indent,
                self.indent == old(self).indent,
                self.dst@ == out0 + spaces(i as nat),
                out0 == old(self).dst@,
                self.line_start == old(self).line_start,
                self.line_start == at_line_start(out0),
            decreases self.indent - i,
        {
            self.dst.append(" ");
            proof {
                reveal_strlit(" ");
                assert(out0 + spaces((i + 1) as nat) =~= out0 + spaces(i as nat) + " "@);
            }
            i = i + 1;
        }
        proof {
            if self.indent > 0 {
                assert((out0 + spaces(self.indent as nat)).last() == ' ');
            } else {
                assert(out0 + spaces(0) =~= out0);
            }
        }
        self.line_start = self.line_start && self.indent == 0;
    }

    /// Goes one indentation level deeper.
    pub(crate) fn enter(&mut self)
        requires
            old(self).wf(),
            old(self).width() + INDENT_UNIT <= usize::MAX,
        ensures
            final(self).wf(),
            final(self).text() == old(self).text(),
            final(self).width() == old(self).width() + INDENT_UNIT,
    {
        self.indent = self.indent + INDENT_UNIT;
    }

    /// Comes back one indentation level.
    pub(crate) fn leave(&mut self)
        requires
            old(self).wf(),
            old(self).width() >= INDENT_UNIT,
        ensures
            final(self).wf(),
            final(self).text() == old(self).text(),
            final(self).width() == old(self).width() - INDENT_UNIT,
    {
        self.indent = self.indent - INDENT_UNIT;
    }

    /// Runs `draw` one indentation level deeper, then comes back to the current level.
    pub fn indent<F>(&mut self, draw: F)
        where
            F: FnOnce(&mut Formatter),
        requires
            old(self).wf(),
            old(self).width() + INDENT_UNIT <= usize::MAX,
            forall|g: &mut Formatter| g.wf() ==> #[trigger] draw.requires((g,)),
            forall|g: &mut Formatter| #[trigger] draw.ensures((g,), ()) ==> final(g).wf(),
        ensures
            final(self).wf(),
            exists|g: &mut Formatter|
                #[trigger] draw.ensures((g,), ()) && g.wf() && final(g).wf() && g.text() == old(self).text() && g.width()
                    == old(self).width() + INDENT_UNIT && final(self).text() == final(g).text(),
            final(self).width() == old(self).width(),
    {
        let width = self.indent;
        self.enter();
        draw(self);
        self.indent = width;
    }

    /// Writes `{` and a newline, runs `draw` one level deeper, then writes `}` and a newline
    /// at the current level.
    pub fn write_block<F>(&mut self, draw: F)
        where
            F: FnOnce(&mut Formatter),
        requires
            old(self).wf(),
            old(self).width() + INDENT_UNIT <= usize::MAX,
            forall|g: &mut Formatter| g.wf() ==> #[trigger] draw.requires((g,)),
            forall|g: &mut Formatter| #[trigger] draw.ensures((g,), ()) ==> final(g).wf(),
        ensures
            final(self).wf(),
            exists|g: &mut Formatter|
                #[trigger] draw.ensures((g,), ()) && g.wf() && final(g).wf() && g.text() == emit(
                    old(self).text(),
                    old(self).width(),
                    "{\n"@,
                ) && g.width() == old(self).width() + INDENT_UNIT && final(self).text() == emit(
                    final(g).text(),
                    old(self).width(),
                    "}\n"@,
                ),
            final(self).width() == old(self).width(),
    {
        self.write_str("{\n");
        let width = self.indent;
        self.enter();
        draw(self);
        self.indent = width;
        self.write_str("}\n");
    }
}

/// The visibility prefix: `pub ` when public, nothing otherwise.
pub open spec fn visibility(public: bool) -> Seq<char> {
    if public {
        "pub "@
    } else {
        Seq::empty()
    }
}

/// Appends the visibility prefix.
pub fn write_visibility(fmt: &mut Formatter, public: bool)
    requires
        old(fmt).wf(),
    ensures
        final(fmt).wf(),
        final(fmt).text() == emit(old(fmt).text(), old(fmt).width(), visibility(public)),
        final(fmt).width() == old(fmt).width(),
{
    if public {
        fmt.write_str("pub ");
    } else {
        fmt.write_str("");
        proof {
            reveal_strlit("");
        }
    }
}

/// A node that renders itself as text.
pub trait GenerateCode {
    /// The node's text at indentation zero.
    spec fn code(&self) -> Seq<char>;

    /// The node can be rendered at indentation `width` without the indentation overflowing.
    spec fn fits(&self, width: nat) -> bool;

    /// Appends the node's text at the formatter's indentation.
    fn generate(&self, fmt: &mut Formatter)
        requires
            old(fmt).wf(),
            self.fits(old(fmt).width()),
        ensures
            final(fmt).wf(),
            final(fmt).text() == emit(old(fmt).text(), old(fmt).width(), self.code()),
            final(fmt).width() == old(fmt).width(),
    ;

    /// The node's text, rendered into a fresh buffer.
    fn to_code_string(&self) -> (r: String)
        requires
            self.fits(0),
        ensures
            r@ == self.code(),
    {
        let mut fmt = Formatter::new(String::new());
        self.generate(&mut fmt);
        proof {
            lemma_lay_zero(true, self.code());
        }
        fmt.into_string()
    }
}

} // verus!
