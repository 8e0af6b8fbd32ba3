//! A text-templating engine: source text interleaved with directive tags and
//! expression interpolations is read into a node tree and rendered against an
//! evaluation context.
//!
//! Text is UTF-8 held as bytes throughout, and every range is a half-open
//! range of byte offsets. Numbers are 64-bit integers, and arithmetic that
//! leaves their range is an error.
//!
//! Null, booleans, numbers and strings are equal where they are alike. An
//! array, an object or a function equals itself only: each is given a serial
//! when it is made, every handle to it carries that serial, and `==` on such
//! values compares serials.

use crate::context::Context;
use crate::directive::{nodes_model, DirectiveKind, Node, NodeV};
use crate::laws::{lemma_tag_free_renders_as_itself, tag_free};
use crate::error::{Error, ErrorV, RuntimeError, SyntaxError};
use crate::reader::{nodes_result, read_spec, registry_model, Reader, Syntax};
use crate::scopes::{grown, lemma_render_grows};
use crate::semantics::{render_spec, Frames};
use crate::error::{syntax_error, SyntaxErrorV};
use crate::expr::{Expr, Pattern};
use crate::parser::{parse_expr_spec, parse_pattern_spec};
use crate::text::{
    bytes_eq, copy_bytes, copy_range, find, find_from, lit, scan_back, scan_run, spaces_at,
    trailing_spaces, ByteClass,
};
use crate::writer::text_outcome;
use vstd::prelude::*;

pub mod builtin;
pub mod context;
pub mod counts;
pub mod directive;
pub mod error;
pub mod expr;
pub mod grammar;
pub mod laws;
pub mod operator;
pub mod parser;
pub mod reader;
pub mod scopes;
pub mod semantics;
pub mod text;
pub mod token;
pub mod value;
pub mod writer;

verus! {

/// The pair of delimiters that set a tag off from the text around it.
#[derive(Debug, Clone, Copy)]
pub struct MetaSyntax<'i> {
    pub left: &'i str,
    pub right: &'i str,
}

/// The reference expression language.
#[derive(Debug, Clone, Copy)]
pub struct Language;

impl Language {
    /// Parses the expression at the start of `input`; see `Expr::parse`.
    pub fn parse_expr(input: &str, offset: usize) -> (r: Result<(Expr, usize), SyntaxError>)
        ensures
            match parse_expr_spec(lit(input), offset) {
                Ok((e, n)) => r matches Ok((x, m)) && x@ == e && m == n,
                Err(e) => r matches Err(x) && x@ == e,
            },
    {
        Expr::parse(input, offset)
    }

    /// Parses the pattern at the start of `input`; see `Pattern::parse`.
    pub fn parse_pattern(input: &str, offset: usize) -> (r: Result<(Pattern, usize), SyntaxError>)
        ensures
            match parse_pattern_spec(lit(input), offset) {
                Ok((e, n)) => r matches Ok((x, m)) && x@ == e && m == n,
                Err(e) => r matches Err(x) && x@ == e,
            },
    {
        Pattern::parse(input, offset)
    }
}

/// The engine: the directives that tags may name, and the languages that
/// templates may be written in.
#[derive(Debug)]
pub struct Yfelo {
    dirs: Vec<(Vec<u8>, DirectiveKind)>,
    langs: Vec<Vec<u8>>,
}

/// The names that a new engine knows: the built-in directives, and the
/// branches of `if`.
pub open spec fn builtin_directives() -> Seq<(Seq<u8>, DirectiveKind)> {
    seq![
        (lit("apply"), DirectiveKind::Apply),
        (lit("def"), DirectiveKind::Def),
        (lit("if"), DirectiveKind::If),
        (lit("if:else"), DirectiveKind::Stub),
        (lit("if:elif"), DirectiveKind::If),
        (lit("for"), DirectiveKind::For),
    ]
}

/// What reading and then rendering gives: the error of the reading, with the
/// context as it was; or what rendering the nodes gives, with the frames and
/// the count of serials that it leaves.
pub open spec fn run_outcome(
    r: Result<Vec<u8>, Error>,
    frames: Frames,
    next: u64,
    before: Frames,
    start: u64,
    depth: nat,
    read: Result<Seq<NodeV>, SyntaxErrorV>,
) -> bool {
    match read {
        Err(e) => r matches Err(x) && x@ == ErrorV::Syntax(e) && frames == before && next == start,
        Ok(nodes) => {
            let want = render_spec(before, start, depth, nodes);
            frames == want.1 && next == want.2 && match want.0 {
                Ok(text) => r matches Ok(x) && x@ == text,
                Err(e) => r matches Err(x) && x@ == ErrorV::Runtime(e),
            }
        },
    }
}

/// A text without the whitespace at its start and at its end.
pub open spec fn stripped(t: Seq<u8>) -> Seq<u8> {
    let rest = t.subrange(spaces_at(t, 0) as int, t.len() as int);
    rest.subrange(0, rest.len() - trailing_spaces(rest))
}

/// What the first line of a document says of the rest: the delimiters, and
/// where the template starts.
pub struct HeaderV {
    pub left: Seq<u8>,
    pub right: Seq<u8>,
    pub offset: int,
}

/// The header of a document. Its first line holds `@yfelo` between the left
/// and the right delimiter; the template starts after that line and the
/// whitespace that follows it. The language `default` must be registered.
pub open spec fn prepare_spec(s: Seq<u8>, languages: Seq<Seq<u8>>, with_offset: bool) -> Result<
    HeaderV,
    SyntaxErrorV,
> {
    let end = match find_from(s, 0, seq![10u8]) {
        Some(i) => i,
        None => s.len() as int,
    };
    let line = s.subrange(0, end);
    match find_from(line, 0, lit("@yfelo")) {
        None => Err(syntax_error(lit("missing @yfelo directive"), (0, 0))),
        Some(p) => if !languages.contains(lit("default")) {
            Err(syntax_error(lit("missing default language"), (0, 0)))
        } else {
            Ok(
                HeaderV {
                    left: stripped(line.subrange(0, p)),
                    right: stripped(line.subrange(p + lit("@yfelo").len(), end)),
                    offset: if with_offset {
                        end + spaces_at(s, end)
                    } else {
                        0
                    },
                },
            )
        },
    }
}

/// The delimiters that a document's first line declares, ready to read
/// templates with them.
#[derive(Debug)]
pub struct Header<'i> {
    dirs: &'i Vec<(Vec<u8>, DirectiveKind)>,
    left: Vec<u8>,
    right: Vec<u8>,
    offset: usize,
}

fn strip(s: &[u8], from: usize, to: usize) -> (r: Vec<u8>)
    requires
        from <= to <= s@.len(),
    ensures
        r@ == stripped(s@.subrange(from as int, to as int)),
{
    let ghost t = s@.subrange(from as int, to as int);
    let a = scan_run(vstd::slice::slice_subrange(s, from, to), 0, ByteClass::Space) + from;
    let b = scan_back(s, a, to);
    proof {
        assert(t.subrange(a - from, t.len() as int) =~= s@.subrange(a as int, to as int));
        assert(s@.subrange(a as int, to as int).subrange(0, b - a) =~= s@.subrange(
            a as int,
            b as int,
        ));
    }
    copy_range(s, a, b)
}

impl<'i> Header<'i> {
    /// What the header says.
    pub closed spec fn view(&self) -> HeaderV {
        HeaderV { left: self.left@, right: self.right@, offset: self.offset as int }
    }

    /// The registered directive names that the header reads templates with.
    pub closed spec fn directives(&self) -> Seq<(Seq<u8>, DirectiveKind)> {
        registry_model(self.dirs@)
    }

    /// Where the template starts in the document.
    pub fn offset(&self) -> (r: usize)
        ensures
            r == self.view().offset,
    {
        self.offset
    }

    /// The left delimiter.
    pub fn left(&self) -> (r: &[u8])
        ensures
            r@ == self.view().left,
    {
        self.left.as_slice()
    }

    /// The right delimiter.
    pub fn right(&self) -> (r: &[u8])
        ensures
            r@ == self.view().right,
    {
        self.right.as_slice()
    }

    /// What `parse` reads in `input`.
    pub open spec fn syntax(&self, input: &str) -> Syntax {
        Syntax {
            text: lit(input),
            base: self.view().offset,
            left: self.view().left,
            right: self.view().right,
            dirs: self.directives(),
        }
    }

    /// What `parse_bytes` reads in `input`.
    pub open spec fn syntax_of(&self, input: Seq<u8>) -> Syntax {
        Syntax {
            text: input,
            base: self.view().offset,
            left: self.view().left,
            right: self.view().right,
            dirs: self.directives(),
        }
    }

    /// Reads a template with the header's delimiters; ranges are counted
    /// from the header's offset. A template so long that its ranges cannot
    /// be stated is an error.
    pub fn parse(&self, input: &str) -> (r: Result<Vec<Node>, SyntaxError>)
        ensures
            self.view().offset + lit(input).len() > usize::MAX ==> (r matches Err(e) && e@
                == syntax_error(lit("template too long"), (0, 0))),
            self.view().offset + lit(input).len() <= usize::MAX ==> nodes_result(
                r,
                read_spec(self.syntax(input)),
            ),
    {
        self.parse_bytes(input.as_bytes())
    }

    /// Reads a template given as bytes; see `parse`.
    pub fn parse_bytes(&self, input: &[u8]) -> (r: Result<Vec<Node>, SyntaxError>)
        ensures
            self.view().offset + input@.len() > usize::MAX ==> (r matches Err(e) && e@
                == syntax_error(lit("template too long"), (0, 0))),
            self.view().offset + input@.len() <= usize::MAX ==> nodes_result(
                r,
                read_spec(self.syntax_of(input@)),
            ),
    {
        if self.offset > usize::MAX - input.len() {
            return Err(SyntaxError::new("template too long", (0, 0)));
        }
        let reader = Reader::with(
            input,
            self.offset,
            self.left.as_slice(),
            self.right.as_slice(),
            self.dirs,
        );
        reader.run()
    }

    /// Reads a template and renders it in `ctx`. A template without tags
    /// renders as itself and leaves `ctx` as it is.
    pub fn render(&self, input: &str, ctx: &mut Context) -> (r: Result<Vec<u8>, Error>)
        ensures
            final(ctx).depth() == old(ctx).depth(),
            self.view().offset + lit(input).len() > usize::MAX ==> (r matches Err(x) && x@
                == ErrorV::Syntax(syntax_error(lit("template too long"), (0, 0)))
                && final(ctx).frames() == old(ctx).frames() && final(ctx).next() == old(
                ctx,
            ).next()),
            self.view().offset + lit(input).len() <= usize::MAX ==> run_outcome(
                r,
                final(ctx).frames(),
                final(ctx).next(),
                old(ctx).frames(),
                old(ctx).next(),
                old(ctx).depth(),
                read_spec(self.syntax(input)),
            ),
            self.view().offset + lit(input).len() <= usize::MAX && tag_free(self.syntax(input))
                ==> (r matches Ok(x) && x@ == lit(input) && final(ctx).frames() == old(
                ctx,
            ).frames() && final(ctx).next() == old(ctx).next()),
    {
        proof {
            if tag_free(self.syntax(input)) {
                lemma_tag_free_renders_as_itself(
                    self.syntax(input),
                    ctx.frames(),
                    ctx.next(),
                    ctx.depth(),
                );
            }
        }
        match self.parse(input) {
            Err(e) => Err(Error::Syntax(e)),
            Ok(nodes) => match crate::writer::render(ctx, &nodes) {
                Ok(text) => Ok(text),
                Err(e) => Err(Error::Runtime(e)),
            },
        }
    }
}

impl Yfelo {
    /// The registered directive names, in the order of their registration.
    pub closed spec fn directives(&self) -> Seq<(Seq<u8>, DirectiveKind)> {
        registry_model(self.dirs@)
    }

    /// The names of the registered languages.
    pub closed spec fn languages(&self) -> Seq<Seq<u8>> {
        Seq::new(self.langs@.len(), |i: int| self.langs@[i]@)
    }

    /// An engine with the built-in directives and no language.
    pub fn new() -> (r: Self)
        ensures
            r.directives() == builtin_directives(),
            r.languages() == Seq::<Seq<u8>>::empty(),
    {
        let mut dirs: Vec<(Vec<u8>, DirectiveKind)> = Vec::new();
        dirs.push((copy_bytes("apply".as_bytes()), DirectiveKind::Apply));
        dirs.push((copy_bytes("def".as_bytes()), DirectiveKind::Def));
        dirs.push((copy_bytes("if".as_bytes()), DirectiveKind::If));
        dirs.push((copy_bytes("if:else".as_bytes()), DirectiveKind::Stub));
        dirs.push((copy_bytes("if:elif".as_bytes()), DirectiveKind::If));
        dirs.push((copy_bytes("for".as_bytes()), DirectiveKind::For));
        let r = Yfelo { dirs, langs: Vec::new() };
        assert(r.directives() =~= builtin_directives());
        assert(r.languages() =~= Seq::<Seq<u8>>::empty());
        r
    }

    /// Registers `name` for the directive of `kind`. A later registration of
    /// a name replaces an earlier one.
    pub fn add_directive(&mut self, name: &str, kind: DirectiveKind)
        ensures
            final(self).directives() == old(self).directives().push((lit(name), kind)),
            final(self).languages() == old(self).languages(),
    {
        self.dirs.push((copy_bytes(name.as_bytes()), kind));
        assert(self.directives() =~= old(self).directives().push((lit(name), kind)));
        assert(self.languages() =~= old(self).languages());
    }

    /// Registers the reference language under `name`.
    pub fn add_language(&mut self, name: &str, language: Language)
        ensures
            final(self).languages() == old(self).languages().push(lit(name)),
            final(self).directives() == old(self).directives(),
    {
        self.langs.push(copy_bytes(name.as_bytes()));
        assert(self.languages() =~= old(self).languages().push(lit(name)));
        assert(self.directives() =~= old(self).directives());
    }

    fn has_language(&self, name: &[u8]) -> (r: bool)
        ensures
            r == self.languages().contains(name@),
    {
        let mut i: usize = 0;
        while i < self.langs.len()
            invariant
                i <= self.langs@.len(),
                forall|j: int| 0 <= j < i ==> self.languages()[j] != name@,
            decreases self.langs.len() - i,
        {
            if bytes_eq(self.langs[i].as_slice(), name) {
                assert(self.languages()[i as int] == name@);
                return true;
            }
            i += 1;
        }
        false
    }

    /// Reads the first line of a document for its delimiters.
    pub fn prepare<'i>(&'i self, input: &str, with_offset: bool) -> (r: Result<
        Header<'i>,
        SyntaxError,
    >)
        ensures
            match prepare_spec(lit(input), self.languages(), with_offset) {
                Ok(h) => r matches Ok(x) && x.view() == h && x.directives() == self.directives(),
                Err(e) => r matches Err(x) && x@ == e,
            },
    {
        let s = input.as_bytes();
        let n = s.len();
        let newline: Vec<u8> = vec![10u8];
        assert(newline@ =~= seq![10u8]);
        let end = match find(s, 0, newline.as_slice()) {
            Some(i) => i,
            None => n,
        };
        let line = vstd::slice::slice_subrange(s, 0, end);
        let word = "@yfelo".as_bytes();
        match find(line, 0, word) {
            None => Err(SyntaxError::new("missing @yfelo directive", (0, 0))),
            Some(p) => {
                if !self.has_language("default".as_bytes()) {
                    return Err(SyntaxError::new("missing default language", (0, 0)));
                }
                let left = strip(line, 0, p);
                let right = strip(line, p + word.len(), end);
                let offset = if with_offset {
                    scan_run(s, end, ByteClass::Space)
                } else {
                    0
                };
                proof {
                    assert(line@.subrange(p + word@.len(), end as int) =~= line@.subrange(
                        p + lit("@yfelo").len(),
                        end as int,
                    ));
                }
                Ok(Header { dirs: &self.dirs, left, right, offset })
            },
        }
    }

    /// What `parse_document` reads in a document: the template after the
    /// header, with the header's delimiters, its ranges counted from the
    /// start of the document.
    pub open spec fn document_syntax(&self, s: Seq<u8>, h: HeaderV) -> Syntax {
        Syntax {
            text: s.subrange(h.offset, s.len() as int),
            base: h.offset,
            left: h.left,
            right: h.right,
            dirs: self.directives(),
        }
    }

    /// Reads a document: its first line for the delimiters, and the rest as
    /// the template.
    pub fn parse_document(&self, input: &str) -> (r: Result<Vec<Node>, SyntaxError>)
        ensures
            match prepare_spec(lit(input), self.languages(), true) {
                Err(e) => r matches Err(x) && x@ == e,
                Ok(h) => nodes_result(r, read_spec(self.document_syntax(lit(input), h))),
            },
    {
        let s = input.as_bytes();
        let n = s.len();
        match self.prepare(input, true) {
            Err(e) => Err(e),
            Ok(header) => {
                let offset = header.offset();
                proof {
                    crate::text::lemma_find_from(s@, 0, seq![10u8]);
                    let end = match find_from(s@, 0, seq![10u8]) {
                        Some(i) => i,
                        None => s@.len() as int,
                    };
                    crate::text::lemma_run_bound(s@, end, ByteClass::Space);
                }
                header.parse_bytes(vstd::slice::slice_subrange(s, offset, n))
            },
        }
    }

    /// Reads a document and renders its template in `ctx`.
    pub fn render_document(&self, input: &str, ctx: &mut Context) -> (r: Result<Vec<u8>, Error>)
        ensures
            final(ctx).depth() == old(ctx).depth(),
            match prepare_spec(lit(input), self.languages(), true) {
                Err(e) => r matches Err(x) && x@ == ErrorV::Syntax(e) && final(ctx).frames() == old(
                    ctx,
                ).frames() && final(ctx).next() == old(ctx).next(),
                Ok(h) => run_outcome(
                    r,
                    final(ctx).frames(),
                    final(ctx).next(),
                    old(ctx).frames(),
                    old(ctx).next(),
                    old(ctx).depth(),
                    read_spec(self.document_syntax(lit(input), h)),
                ),
            },
    {
        match self.parse_document(input) {
            Err(e) => Err(Error::Syntax(e)),
            Ok(nodes) => match crate::writer::render(ctx, &nodes) {
                Ok(text) => Ok(text),
                Err(e) => Err(Error::Runtime(e)),
            },
        }
    }

    /// What `parse` reads in `source` with the delimiters of `meta`.
    pub open spec fn syntax(&self, source: &str, meta: &MetaSyntax) -> Syntax {
        Syntax {
            text: lit(source),
            base: 0,
            left: lit(meta.left),
            right: lit(meta.right),
            dirs: self.directives(),
        }
    }

    /// Reads a template into its node tree.
    pub fn parse(&self, source: &str, meta: &MetaSyntax) -> (r: Result<Vec<Node>, SyntaxError>)
        ensures
            nodes_result(r, read_spec(self.syntax(source, meta))),
    {
        let n = source.as_bytes().len();
        let reader = Reader::new(source, 0, meta, &self.dirs);
        reader.run()
    }

    /// Renders a node tree in `ctx`. What the nodes bind at their top level
    /// is bound in the innermost frame of `ctx` afterwards; the other frames
    /// stay as they are, and so does what the innermost frame bound before.
    pub fn render(&self, nodes: &Vec<Node>, ctx: &mut Context) -> (r: Result<Vec<u8>, RuntimeError>)
        ensures
            final(ctx).depth() == old(ctx).depth(),
            text_outcome(
                r,
                final(ctx).frames(),
                final(ctx).next(),
                render_spec(old(ctx).frames(), old(ctx).next(), old(ctx).depth(), nodes_model(nodes@)),
            ),
            grown(old(ctx).frames(), final(ctx).frames()),
    {
        proof {
            ctx.lemma_frames();
            lemma_render_grows(ctx.frames(), ctx.next(), ctx.depth(), nodes_model(nodes@));
        }
        crate::writer::render(ctx, nodes)
    }

    /// Reads a template and renders it in `ctx`. A template without tags
    /// renders as itself and leaves `ctx` as it is.
    pub fn run(&self, source: &str, meta: &MetaSyntax, ctx: &mut Context) -> (r: Result<
        Vec<u8>,
        Error,
    >)
        ensures
            final(ctx).depth() == old(ctx).depth(),
            run_outcome(
                r,
                final(ctx).frames(),
                final(ctx).next(),
                old(ctx).frames(),
                old(ctx).next(),
                old(ctx).depth(),
                read_spec(self.syntax(source, meta)),
            ),
            tag_free(self.syntax(source, meta)) ==> (r matches Ok(x) && x@ == lit(source)
                && final(ctx).frames() == old(ctx).frames() && final(ctx).next() == old(
                ctx,
            ).next()),
    {
        proof {
            if tag_free(self.syntax(source, meta)) {
                lemma_tag_free_renders_as_itself(
                    self.syntax(source, meta),
                    ctx.frames(),
                    ctx.next(),
                    ctx.depth(),
                );
            }
        }
        match self.parse(source, meta) {
            Err(e) => Err(Error::Syntax(e)),
            Ok(nodes) => match crate::writer::render(ctx, &nodes) {
                Ok(text) => Ok(text),
                Err(e) => Err(Error::Runtime(e)),
            },
        }
    }
}

} // verus!
