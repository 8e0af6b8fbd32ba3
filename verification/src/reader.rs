//! The reader: a single forward scan that turns a template into a node tree.

use crate::builtin::{branch_spec, open_spec, opened, tags_model, Opened};
use crate::directive::{
    elements_model, lemma_elements_push, lemma_nodes_push, nodes_model, Directive, DirectiveKind,
    DirectiveV, Element, ElementV, Node, NodeV, Stub,
};
use crate::MetaSyntax;
use crate::error::{syntax_error, SyntaxError, SyntaxErrorV};
use crate::expr::{Expr, ExprV, Pattern, PatternV};
use crate::grammar::{expr_at, left, pattern_at};
use crate::parser::{parse_expr_at, parse_pattern_at};
use crate::text::{
    append, append_quoted, append_str, bytes_eq, class_has, copy_range, find,
    find_from, is_alnum, lit, matches_at, quoted, run_at, scan_run, skip_spaces, spaces_at,
    starts_with_at, trim_range, trimmed, ByteClass,
};
use vstd::prelude::*;

verus! {

/// What the reader knows of a tag when it hands it to a directive.
#[derive(Debug, PartialEq, Eq)]
pub struct TagInfo {
    /// The directive's name as written in the tag.
    pub name: Vec<u8>,
    /// The range of the name in the source.
    pub range: (usize, usize),
    /// `#` for a block's opening tag, `/` for its closing tag, `@` for an
    /// inline tag, `:` for a branch of the enclosing block.
    pub mark: char,
}

/// The model of a tag.
pub struct TagInfoV {
    pub name: Seq<u8>,
    pub range: (usize, usize),
    pub mark: char,
}

impl View for TagInfo {
    type V = TagInfoV;

    open spec fn view(&self) -> TagInfoV {
        TagInfoV { name: self.name@, range: self.range, mark: self.mark }
    }
}

/// Whether a tag with this mark has children.
pub open spec fn mark_has_children(mark: char) -> bool {
    mark == '#' || mark == ':'
}

/// The error of a directive that needs children, in a tag that has none.
pub open spec fn should_not_be_empty(info: TagInfoV) -> SyntaxErrorV {
    syntax_error(lit("directive ") + quoted(info.name) + lit(" should not be empty"), info.range)
}

/// The error of a directive that takes no children, in a tag that is not inline.
pub open spec fn should_be_empty(info: TagInfoV) -> SyntaxErrorV {
    syntax_error(lit("directive ") + quoted(info.name) + lit(" should be empty"), info.range)
}

impl TagInfo {
    /// Succeeds where the tag opens a block or a branch.
    pub fn expect_children(&self) -> (r: Result<(), SyntaxError>)
        ensures
            mark_has_children(self.mark) ==> r is Ok,
            !mark_has_children(self.mark) ==> (r matches Err(e) && e@ == should_not_be_empty(
                self@,
            )),
    {
        if self.mark == '#' || self.mark == ':' {
            Ok(())
        } else {
            let mut m: Vec<u8> = Vec::new();
            append_str(&mut m, "directive ");
            append_quoted(&mut m, self.name.as_slice());
            append_str(&mut m, " should not be empty");
            Err(SyntaxError { message: m, range: (self.range.0, self.range.1) })
        }
    }

    /// Succeeds where the tag is inline.
    pub fn expect_empty(&self) -> (r: Result<(), SyntaxError>)
        ensures
            self.mark == '@' ==> r is Ok,
            self.mark != '@' ==> (r matches Err(e) && e@ == should_be_empty(self@)),
    {
        if self.mark == '@' {
            Ok(())
        } else {
            let mut m: Vec<u8> = Vec::new();
            append_str(&mut m, "directive ");
            append_quoted(&mut m, self.name.as_slice());
            append_str(&mut m, " should be empty");
            Err(SyntaxError { message: m, range: (self.range.0, self.range.1) })
        }
    }
}

} // verus!

verus! {

/// The range of the empty text at `pos`, in a source that starts at `base`.
pub open spec fn here(base: int, pos: int) -> (usize, usize) {
    ((base + pos) as usize, (base + pos) as usize)
}

/// The position after the whitespace at `pos`.
pub open spec fn after_spaces(s: Seq<u8>, pos: int) -> int {
    pos + spaces_at(s, pos)
}

/// An expression at `pos`; the position moves past it and the whitespace
/// after it.
pub open spec fn expr_step(s: Seq<u8>, base: int, pos: int) -> Result<(ExprV, int), SyntaxErrorV> {
    match expr_at(s, pos, base) {
        Some((e, n)) => Ok((e, after_spaces(s, pos + n))),
        None => Err(syntax_error(lit("expect expression"), here(base, pos))),
    }
}

/// A pattern at `pos`; the position moves past it and the whitespace after it.
pub open spec fn pattern_step(s: Seq<u8>, base: int, pos: int) -> Result<
    (PatternV, int),
    SyntaxErrorV,
> {
    match pattern_at(s, pos, base) {
        Some((p, n)) => Ok((p, after_spaces(s, pos + n))),
        None => Err(syntax_error(lit("expect pattern"), here(base, pos))),
    }
}

/// A name of letters and digits at `pos`, with its range; the position moves
/// past it and the whitespace after it.
pub open spec fn name_step(s: Seq<u8>, base: int, pos: int) -> Result<
    (Seq<u8>, (usize, usize), int),
    SyntaxErrorV,
> {
    let n = run_at(s, pos, ByteClass::Alnum);
    if n == 0 {
        Err(syntax_error(lit("expect identifier"), here(base, pos)))
    } else {
        Ok(
            (
                s.subrange(pos, pos + n),
                ((base + pos) as usize, (base + pos + n) as usize),
                after_spaces(s, pos + n),
            ),
        )
    }
}

/// The text `p` at `pos`; the position moves past it and the whitespace after it.
pub open spec fn punct_step(s: Seq<u8>, base: int, pos: int, p: Seq<u8>) -> Result<
    int,
    SyntaxErrorV,
> {
    if matches_at(s, pos, p) {
        Ok(after_spaces(s, pos + p.len()))
    } else {
        Err(syntax_error(lit("expected punctuation ") + quoted(p), here(base, pos)))
    }
}

/// The word `k` at `pos`, not followed by a letter or a digit; the position
/// moves past it.
pub open spec fn keyword_step(s: Seq<u8>, base: int, pos: int, k: Seq<u8>) -> Result<
    int,
    SyntaxErrorV,
> {
    if matches_at(s, pos, k) && !(pos + k.len() < s.len() && is_alnum(s[pos + k.len()])) {
        Ok(pos + k.len())
    } else {
        Err(syntax_error(lit("expect keyword ") + quoted(k), here(base, pos)))
    }
}

/// The right delimiter at `pos`; the position moves past it.
pub open spec fn close_step(s: Seq<u8>, base: int, pos: int, right: Seq<u8>) -> Result<
    int,
    SyntaxErrorV,
> {
    if matches_at(s, pos, right) {
        Ok(pos + right.len())
    } else {
        Err(syntax_error(lit("invalid tag syntax: expect ") + quoted(right), here(base, pos)))
    }
}

fn error_here(message: &str, base: usize, pos: usize) -> (r: SyntaxError)
    requires
        base + pos <= usize::MAX,
    ensures
        r@ == syntax_error(lit(message), here(base as int, pos as int)),
{
    SyntaxError::new(message, (base + pos, base + pos))
}

fn error_named(message: &str, name: &[u8], base: usize, pos: usize) -> (r: SyntaxError)
    requires
        base + pos <= usize::MAX,
    ensures
        r@ == syntax_error(lit(message) + quoted(name@), here(base as int, pos as int)),
{
    SyntaxError::named(message, name, (base + pos, base + pos))
}

/// Reads an expression at `pos`, and gives the position after it and the
/// whitespace that follows.
pub fn read_expr(s: &[u8], base: usize, pos: usize) -> (r: Result<(Expr, usize), SyntaxError>)
    requires
        pos <= s@.len(),
        base + s@.len() <= usize::MAX,
    ensures
        match expr_step(s@, base as int, pos as int) {
            Ok((e, p)) => r matches Ok((x, q)) && x@ == e && q == p && pos <= q <= s@.len(),
            Err(e) => r matches Err(x) && x@ == e,
        },
{
    match parse_expr_at(s, pos, base) {
        Some((e, end)) => Ok((e, skip_spaces(s, end))),
        None => Err(error_here("expect expression", base, pos)),
    }
}

/// Reads a pattern at `pos`, and gives the position after it and the
/// whitespace that follows.
pub fn read_pattern(s: &[u8], base: usize, pos: usize) -> (r: Result<
    (Pattern, usize),
    SyntaxError,
>)
    requires
        pos <= s@.len(),
        base + s@.len() <= usize::MAX,
    ensures
        match pattern_step(s@, base as int, pos as int) {
            Ok((e, p)) => r matches Ok((x, q)) && x@ == e && q == p && pos <= q <= s@.len(),
            Err(e) => r matches Err(x) && x@ == e,
        },
{
    match parse_pattern_at(s, pos, base) {
        Some((e, end)) => Ok((e, skip_spaces(s, end))),
        None => Err(error_here("expect pattern", base, pos)),
    }
}

/// Reads a name of letters and digits at `pos`, with its range.
pub fn read_name(s: &[u8], base: usize, pos: usize) -> (r: Result<
    (Vec<u8>, (usize, usize), usize),
    SyntaxError,
>)
    requires
        pos <= s@.len(),
        base + s@.len() <= usize::MAX,
    ensures
        match name_step(s@, base as int, pos as int) {
            Ok((n, range, p)) => r matches Ok((x, y, q)) && x@ == n && y == range && q == p && pos
                < q <= s@.len(),
            Err(e) => r matches Err(x) && x@ == e,
        },
{
    let end = scan_run(s, pos, ByteClass::Alnum);
    if end == pos {
        Err(error_here("expect identifier", base, pos))
    } else {
        Ok((copy_range(s, pos, end), (base + pos, base + end), skip_spaces(s, end)))
    }
}

/// Reads the text `punct` at `pos`, and gives the position after it and the
/// whitespace that follows.
pub fn read_punct(s: &[u8], base: usize, pos: usize, punct: &[u8]) -> (r: Result<
    usize,
    SyntaxError,
>)
    requires
        pos <= s@.len(),
        base + s@.len() <= usize::MAX,
    ensures
        match punct_step(s@, base as int, pos as int, punct@) {
            Ok(p) => r matches Ok(q) && q == p && pos + punct@.len() <= q <= s@.len(),
            Err(e) => r matches Err(x) && x@ == e,
        },
{
    if starts_with_at(s, pos, punct) {
        Ok(skip_spaces(s, pos + punct.len()))
    } else {
        Err(error_named("expected punctuation ", punct, base, pos))
    }
}

/// Reads the word `keyword` at `pos`, and gives the position after it.
pub fn read_keyword(s: &[u8], base: usize, pos: usize, keyword: &[u8]) -> (r: Result<
    usize,
    SyntaxError,
>)
    requires
        pos <= s@.len(),
        base + s@.len() <= usize::MAX,
    ensures
        match keyword_step(s@, base as int, pos as int, keyword@) {
            Ok(p) => r matches Ok(q) && q == p && pos + keyword@.len() == q <= s@.len(),
            Err(e) => r matches Err(x) && x@ == e,
        },
{
    if starts_with_at(s, pos, keyword) {
        let end = pos + keyword.len();
        if end < s.len() && class_has(ByteClass::Alnum, s[end]) {
            Err(error_named("expect keyword ", keyword, base, pos))
        } else {
            Ok(end)
        }
    } else {
        Err(error_named("expect keyword ", keyword, base, pos))
    }
}

/// Reads the right delimiter at `pos`, and gives the position after it.
pub fn read_close(s: &[u8], base: usize, pos: usize, right: &[u8]) -> (r: Result<
    usize,
    SyntaxError,
>)
    requires
        pos <= s@.len(),
        base + s@.len() <= usize::MAX,
    ensures
        match close_step(s@, base as int, pos as int, right@) {
            Ok(p) => r matches Ok(q) && q == p && pos + right@.len() == q <= s@.len(),
            Err(e) => r matches Err(x) && x@ == e,
        },
{
    if starts_with_at(s, pos, right) {
        Ok(pos + right.len())
    } else {
        Err(error_named("invalid tag syntax: expect ", right, base, pos))
    }
}

} // verus!

verus! {

/// An element that is still open, the tag that opened it, and the tags of
/// the branches attached to it so far.
pub struct LayerV {
    pub element: ElementV,
    pub info: TagInfoV,
    pub tags: Seq<TagInfoV>,
}

/// What a scan reads and how: the text, the offset that its ranges are
/// counted from, the delimiters, and the registered directive names in the
/// order of their registration.
pub struct Syntax {
    pub text: Seq<u8>,
    pub base: int,
    pub left: Seq<u8>,
    pub right: Seq<u8>,
    pub dirs: Seq<(Seq<u8>, DirectiveKind)>,
}

/// The model of an open element with its tags.
pub open spec fn layer_model(l: (Element, TagInfo, Vec<TagInfo>)) -> LayerV {
    LayerV { element: l.0@, info: l.1@, tags: tags_model(l.2@) }
}

/// The models of the open elements.
pub open spec fn layers_model(v: Seq<(Element, TagInfo, Vec<TagInfo>)>) -> Seq<LayerV> {
    Seq::new(v.len(), |i: int| layer_model(v[i]))
}

/// The registered names with their directives.
pub open spec fn registry_model(v: Seq<(Vec<u8>, DirectiveKind)>) -> Seq<(Seq<u8>, DirectiveKind)> {
    Seq::new(v.len(), |i: int| (v[i].0@, v[i].1))
}

/// The directive registered for `name`: the last registration of a name holds.
pub open spec fn registered(dirs: Seq<(Seq<u8>, DirectiveKind)>, name: Seq<u8>) -> Option<
    DirectiveKind,
>
    decreases dirs.len(),
{
    if dirs.len() == 0 {
        None
    } else if dirs.last().0 == name {
        Some(dirs.last().1)
    } else {
        registered(dirs.drop_last(), name)
    }
}

/// The layer under which every node of a template stands.
pub open spec fn root_layer() -> LayerV {
    LayerV {
        element: ElementV { directive: DirectiveV::Stub, nodes: Seq::empty(), branches: Seq::empty() },
        info: TagInfoV { name: Seq::empty(), range: (0, 0), mark: '\0' },
        tags: Seq::empty(),
    }
}

/// An element with one more node: in its last branch where it has branches,
/// else among its own nodes.
pub open spec fn element_with(el: ElementV, node: NodeV) -> ElementV {
    if el.branches.len() > 0 {
        let b = el.branches.last();
        ElementV {
            branches: el.branches.drop_last().push(ElementV { nodes: b.nodes.push(node), ..b }),
            ..el
        }
    } else {
        ElementV { nodes: el.nodes.push(node), ..el }
    }
}

/// The stack with `node` added to its innermost open element.
pub open spec fn add_node(stack: Seq<LayerV>, node: NodeV) -> Seq<LayerV> {
    if stack.len() == 0 {
        stack
    } else {
        let top = stack.last();
        stack.drop_last().push(LayerV { element: element_with(top.element, node), ..top })
    }
}

/// The stack with a chunk of text added, unless the chunk is empty.
pub open spec fn add_text(stack: Seq<LayerV>, chunk: Seq<u8>) -> Seq<LayerV> {
    if chunk.len() == 0 {
        stack
    } else {
        add_node(stack, NodeV::Text(chunk))
    }
}

/// A tag that closes or branches nothing, or a block that nothing closes.
pub open spec fn unmatched(info: TagInfoV) -> SyntaxErrorV {
    syntax_error(lit("unmatched tag name ") + quoted(info.name), info.range)
}

/// A closing tag of another name than the open block's.
pub open spec fn mismatched(open: Seq<u8>, info: TagInfoV) -> SyntaxErrorV {
    syntax_error(
        lit("unmatched tag name: expect ") + quoted(open) + lit(", found ") + quoted(info.name),
        info.range,
    )
}

/// A directive's error, with the directive named in front of it where the
/// error still points at the tag's name.
pub open spec fn prefixed(e: SyntaxErrorV, info: TagInfoV) -> SyntaxErrorV {
    if e.range == info.range {
        syntax_error(
            lit("invalid syntax for directive ") + quoted(info.name) + lit(": ") + e.message,
            e.range,
        )
    } else {
        e
    }
}

/// The name under which the directive of a tag is registered: a branch is
/// registered under the name of its block, `:` and its own name.
pub open spec fn lookup_name(stack: Seq<LayerV>, info: TagInfoV) -> Seq<u8> {
    if info.mark == ':' && stack.len() > 0 {
        stack.last().info.name + seq![58u8] + info.name
    } else {
        info.name
    }
}

/// The kind of directive that an element in the tree carries.
pub open spec fn kind_of_model(d: DirectiveV) -> DirectiveKind {
    match d {
        DirectiveV::Stub => DirectiveKind::Stub,
        DirectiveV::If(_) => DirectiveKind::If,
        DirectiveV::For(_, _, _) => DirectiveKind::For,
        DirectiveV::DefVar(_, _) => DirectiveKind::Def,
        DirectiveV::DefFn(_, _, _) => DirectiveKind::Def,
        DirectiveV::Apply(_, _) => DirectiveKind::Apply,
    }
}

/// Finds the directive of a tag and lets it read the tag's arguments. A
/// branch is first put to the open block's directive.
#[verifier::opaque]
pub open spec fn dir_open(x: Syntax, stack: Seq<LayerV>, info: TagInfoV, pos: int) -> Opened {
    let name = lookup_name(stack, info);
    match registered(x.dirs, name) {
        None => Err(syntax_error(lit("unknown directive ") + quoted(name), info.range)),
        Some(kind) => {
            let taken = if info.mark == ':' && stack.len() > 0 {
                branch_spec(kind_of_model(stack.last().element.directive), stack.last().tags, info)
            } else {
                Ok(())
            };
            match taken {
                Err(e) => Err(e),
                Ok(()) => match open_spec(kind, x.text, x.base, pos, info) {
                    Ok(r) => Ok(r),
                    Err(e) => Err(prefixed(e, info)),
                },
            }
        },
    }
}

/// An element that has only its directive yet.
pub open spec fn fresh(d: DirectiveV) -> ElementV {
    ElementV { directive: d, nodes: Seq::empty(), branches: Seq::empty() }
}

/// The mark that a byte after the left delimiter stands for.
pub open spec fn mark_of(b: u8) -> Option<char> {
    if b == 35 {
        Some('#')
    } else if b == 47 {
        Some('/')
    } else if b == 64 {
        Some('@')
    } else if b == 58 {
        Some(':')
    } else {
        None
    }
}

/// What a scan has arrived at: the open elements and the position.
pub type Arrived = Result<(Seq<LayerV>, int), SyntaxErrorV>;

/// Reads a directive tag from its name on, `pos` being the position after
/// the mark.
#[verifier::opaque]
pub open spec fn directive_step(x: Syntax, stack: Seq<LayerV>, mark: char, pos: int) -> Arrived {
    match name_step(x.text, x.base, pos) {
        Err(_) => Err(
            syntax_error(lit("invalid tag syntax: missing directive name"), here(x.base, pos)),
        ),
        Ok((name, range, p)) => {
            let info = TagInfoV { name, range, mark };
            if mark == '#' {
                match dir_open(x, stack, info, p) {
                    Err(e) => Err(e),
                    Ok((d, q)) => Ok(
                        (stack.push(LayerV { element: fresh(d), info, tags: Seq::empty() }), q),
                    ),
                }
            } else if mark == '@' {
                match dir_open(x, stack, info, p) {
                    Err(e) => Err(e),
                    Ok((d, q)) => Ok((add_node(stack, NodeV::Element(fresh(d))), q)),
                }
            } else if stack.len() <= 1 {
                Err(unmatched(info))
            } else if mark == ':' {
                match dir_open(x, stack, info, p) {
                    Err(e) => Err(e),
                    Ok((d, q)) => {
                        let top = stack.last();
                        Ok(
                            (
                                stack.drop_last().push(
                                    LayerV {
                                        element: ElementV {
                                            branches: top.element.branches.push(fresh(d)),
                                            ..top.element
                                        },
                                        tags: top.tags.push(info),
                                        ..top
                                    },
                                ),
                                q,
                            ),
                        )
                    },
                }
            } else if stack.last().info.name != name {
                Err(mismatched(stack.last().info.name, info))
            } else {
                Ok((add_node(stack.drop_last(), NodeV::Element(stack.last().element)), p))
            }
        },
    }
}

/// Reads one tag, `pos` being the position after its left delimiter: a
/// directive tag where a mark stands there, else an expression. The right
/// delimiter must follow.
#[verifier::opaque]
pub open spec fn tag_step(x: Syntax, stack: Seq<LayerV>, pos: int) -> Arrived {
    let inner: Arrived = if 0 <= pos < x.text.len() && mark_of(x.text[pos]) is Some {
        directive_step(x, stack, mark_of(x.text[pos]).unwrap(), pos + 1)
    } else {
        match expr_step(x.text, x.base, pos) {
            Err(e) => Err(e),
            Ok((e, p)) => Ok((add_node(stack, NodeV::Expr(e)), p)),
        }
    };
    match inner {
        Err(e) => Err(e),
        Ok((st, p)) => match close_step(x.text, x.base, p, x.right) {
            Err(e) => Err(e),
            Ok(q) => Ok((st, q)),
        },
    }
}

/// The nodes of a template once its text is read: those of the root layer,
/// unless a block is still open.
pub open spec fn finish(stack: Seq<LayerV>) -> Result<Seq<NodeV>, SyntaxErrorV> {
    if stack.len() == 0 {
        Ok(Seq::empty())
    } else if stack.len() > 1 {
        Err(unmatched(stack.last().info))
    } else {
        Ok(stack.last().element.nodes)
    }
}

/// Reads the text from `pos` on. The text before a tag is trimmed; the text
/// after the last tag is trimmed too, but a text without any tag is not.
pub open spec fn read_from(x: Syntax, stack: Seq<LayerV>, pos: int) -> Result<
    Seq<NodeV>,
    SyntaxErrorV,
>
    decreases left(x.text, pos),
{
    match find_from(x.text, pos, x.left) {
        None => {
            let rest = x.text.subrange(pos, x.text.len() as int);
            finish(
                add_text(
                    stack,
                    if pos > 0 {
                        trimmed(rest)
                    } else {
                        rest
                    },
                ),
            )
        },
        Some(i) => match tag_step(
            x,
            add_text(stack, trimmed(x.text.subrange(pos, i))),
            i + x.left.len(),
        ) {
            Err(e) => Err(e),
            Ok((st, p)) => if pos < p <= x.text.len() {
                read_from(x, st, p)
            } else {
                finish(st)
            },
        },
    }
}

/// The node tree of a template, or the first error in it. An empty left
/// delimiter is an error at the start of the text.
pub open spec fn read_spec(x: Syntax) -> Result<Seq<NodeV>, SyntaxErrorV> {
    if x.left.len() == 0 {
        Err(syntax_error(lit("empty delimiter"), here(x.base, 0)))
    } else {
        read_from(x, seq![root_layer()], 0)
    }
}

} // verus!

verus! {

/// An open element, the tag that opened it, and the tags of its branches.
pub type Layer = (Element, TagInfo, Vec<TagInfo>);

/// `r` holds the nodes, or the error, that `want` states.
pub open spec fn nodes_result(r: Result<Vec<Node>, SyntaxError>, want: Result<Seq<NodeV>, SyntaxErrorV>) -> bool {
    match want {
        Ok(nodes) => r matches Ok(v) && nodes_model(v@) == nodes,
        Err(e) => r matches Err(x) && x@ == e,
    }
}

/// The directive registered for `name`.
pub fn find_kind(dirs: &Vec<(Vec<u8>, DirectiveKind)>, name: &[u8]) -> (r: Option<DirectiveKind>)
    ensures
        r == registered(registry_model(dirs@), name@),
{
    let ghost m = registry_model(dirs@);
    let mut i: usize = dirs.len();
    assert(m.subrange(0, i as int) =~= m);
    while i > 0
        invariant
            i <= dirs.len(),
            m == registry_model(dirs@),
            registered(m, name@) == registered(m.subrange(0, i as int), name@),
        decreases i,
    {
        i -= 1;
        proof {
            let cur = m.subrange(0, i + 1);
            assert(cur.last() == m[i as int]);
            assert(cur.drop_last() =~= m.subrange(0, i as int));
        }
        if bytes_eq(dirs[i].0.as_slice(), name) {
            return Some(dirs[i].1);
        }
    }
    None
}

fn push_node(stack: &mut Vec<Layer>, node: Node)
    requires
        old(stack)@.len() > 0,
    ensures
        final(stack)@.len() == old(stack)@.len(),
        layers_model(final(stack)@) == add_node(layers_model(old(stack)@), node@),
{
    let ghost before = layers_model(stack@);
    let ghost n = node@;
    let (mut el, info, tags) = stack.pop().unwrap();
    let ghost rest = layers_model(stack@);
    assert(rest =~= before.drop_last());
    let ghost top = before.last();
    assert(top == layer_model((el, info, tags)));
    if el.branches.len() > 0 {
        let ghost bs = elements_model(el.branches@);
        let mut b = el.branches.pop().unwrap();
        let ghost bm = b@;
        assert(bm == bs.last());
        assert(elements_model(el.branches@) =~= bs.drop_last());
        proof {
            lemma_nodes_push(b.nodes@, node);
        }
        b.nodes.push(node);
        proof {
            lemma_elements_push(el.branches@, b);
        }
        el.branches.push(b);
        assert(el@ == element_with(top.element, n));
    } else {
        proof {
            lemma_nodes_push(el.nodes@, node);
        }
        el.nodes.push(node);
        assert(el@ == element_with(top.element, n));
    }
    stack.push((el, info, tags));
    assert(layers_model(stack@) =~= add_node(before, n));
}

fn push_text(stack: &mut Vec<Layer>, s: &[u8], from: usize, to: usize, trim: bool)
    requires
        old(stack)@.len() > 0,
        from <= to <= s@.len(),
    ensures
        final(stack)@.len() == old(stack)@.len(),
        layers_model(final(stack)@) == add_text(
            layers_model(old(stack)@),
            if trim {
                trimmed(s@.subrange(from as int, to as int))
            } else {
                s@.subrange(from as int, to as int)
            },
        ),
{
    let (a, b) = if trim {
        trim_range(s, from, to)
    } else {
        (from, to)
    };
    if a < b {
        push_node(stack, Node::Text(copy_range(s, a, b)));
    }
}

fn prefix_error(e: SyntaxError, info: &TagInfo) -> (r: SyntaxError)
    ensures
        r@ == prefixed(e@, info@),
{
    if e.range.0 == info.range.0 && e.range.1 == info.range.1 {
        let mut m: Vec<u8> = Vec::new();
        append_str(&mut m, "invalid syntax for directive ");
        append_quoted(&mut m, info.name.as_slice());
        append_str(&mut m, ": ");
        append(&mut m, e.message.as_slice());
        SyntaxError { message: m, range: e.range }
    } else {
        e
    }
}

fn open_directive(
    dirs: &Vec<(Vec<u8>, DirectiveKind)>,
    s: &[u8],
    base: usize,
    right: Ghost<Seq<u8>>,
    left: Ghost<Seq<u8>>,
    stack: &Vec<Layer>,
    info: &TagInfo,
    pos: usize,
) -> (r: Result<(Directive, usize), SyntaxError>)
    requires
        pos <= s@.len(),
        base + s@.len() <= usize::MAX,
    ensures
        opened(
            r,
            dir_open(
                Syntax {
                    text: s@,
                    base: base as int,
                    left: left@,
                    right: right@,
                    dirs: registry_model(dirs@),
                },
                layers_model(stack@),
                info@,
                pos as int,
            ),
            pos,
            s@.len() as int,
        ),
{
    reveal(dir_open);
    let branch = info.mark == ':' && stack.len() > 0;
    let mut name: Vec<u8> = Vec::new();
    if branch {
        append(&mut name, stack[stack.len() - 1].1.name.as_slice());
        name.push(58);
    }
    append(&mut name, info.name.as_slice());
    assert(name@ =~= lookup_name(layers_model(stack@), info@));
    match find_kind(dirs, name.as_slice()) {
        None => Err(
            SyntaxError::named(
                "unknown directive ",
                name.as_slice(),
                (info.range.0, info.range.1),
            ),
        ),
        Some(kind) => {
            if branch {
                let top = &stack[stack.len() - 1];
                assert(kind_of_model(top.0@.directive) == top.0.directive.kind());
                match top.0.directive.kind_of().branch(&top.2, info) {
                    Err(e) => {
                        return Err(e);
                    },
                    Ok(()) => {},
                }
            }
            match kind.open(s, base, pos, info) {
                Ok(r) => Ok(r),
                Err(e) => Err(prefix_error(e, info)),
            }
        },
    }
}

fn mark_char(b: u8) -> (r: Option<char>)
    ensures
        r == mark_of(b),
{
    if b == 35 {
        Some('#')
    } else if b == 47 {
        Some('/')
    } else if b == 64 {
        Some('@')
    } else if b == 58 {
        Some(':')
    } else {
        None
    }
}

#[verifier::spinoff_prover]
fn read_directive(
    dirs: &Vec<(Vec<u8>, DirectiveKind)>,
    s: &[u8],
    base: usize,
    right: Ghost<Seq<u8>>,
    left: Ghost<Seq<u8>>,
    stack: &mut Vec<Layer>,
    mark: char,
    pos: usize,
) -> (r: Result<usize, SyntaxError>)
    requires
        pos <= s@.len(),
        base + s@.len() <= usize::MAX,
        old(stack)@.len() > 0,
        mark == '#' || mark == '/' || mark == '@' || mark == ':',
    ensures
        match directive_step(
            Syntax {
                text: s@,
                base: base as int,
                left: left@,
                right: right@,
                dirs: registry_model(dirs@),
            },
            layers_model(old(stack)@),
            mark,
            pos as int,
        ) {
            Ok((st, p)) => r matches Ok(q) && q == p && pos < q <= s@.len() && layers_model(
                final(stack)@,
            ) == st && final(stack)@.len() > 0,
            Err(e) => r matches Err(x) && x@ == e,
        },
{
    reveal(directive_step);
    let ghost before = layers_model(stack@);
    let (name, range, p) = match read_name(s, base, pos) {
        Ok(x) => x,
        Err(_) => {
            return Err(
                SyntaxError::new(
                    "invalid tag syntax: missing directive name",
                    (base + pos, base + pos),
                ),
            );
        },
    };
    let info = TagInfo { name, range, mark };
    if mark == '#' {
        match open_directive(dirs, s, base, right, left, stack, &info, p) {
            Err(e) => Err(e),
            Ok((d, q)) => {
                let el = Element::new(d);
                let tags: Vec<TagInfo> = Vec::new();
                assert(tags_model(tags@) =~= Seq::empty());
                let ghost layer = layer_model((el, info, tags));
                stack.push((el, info, tags));
                assert(layers_model(stack@) =~= before.push(layer));
                Ok(q)
            },
        }
    } else if mark == '@' {
        match open_directive(dirs, s, base, right, left, stack, &info, p) {
            Err(e) => Err(e),
            Ok((d, q)) => {
                push_node(stack, Node::Element(Element::new(d)));
                Ok(q)
            },
        }
    } else if stack.len() <= 1 {
        let mut m: Vec<u8> = Vec::new();
        append_str(&mut m, "unmatched tag name ");
        append_quoted(&mut m, info.name.as_slice());
        Err(SyntaxError { message: m, range: info.range })
    } else if mark == ':' {
        match open_directive(dirs, s, base, right, left, stack, &info, p) {
            Err(e) => Err(e),
            Ok((d, q)) => {
                let (mut el, open, mut tags) = stack.pop().unwrap();
                assert(layers_model(stack@) =~= before.drop_last());
                assert(before.last() == layer_model((el, open, tags)));
                let branch = Element::new(d);
                proof {
                    lemma_elements_push(el.branches@, branch);
                }
                el.branches.push(branch);
                let ghost tags_before = tags_model(tags@);
                let ghost tag = info@;
                tags.push(info);
                assert(tags_model(tags@) =~= tags_before.push(tag));
                let ghost layer = layer_model((el, open, tags));
                stack.push((el, open, tags));
                assert(layers_model(stack@) =~= before.drop_last().push(layer));
                Ok(q)
            },
        }
    } else {
        assert(before.last() == layer_model(stack@[stack@.len() - 1]));
        if !bytes_eq(stack[stack.len() - 1].1.name.as_slice(), info.name.as_slice()) {
            let mut m: Vec<u8> = Vec::new();
            append_str(&mut m, "unmatched tag name: expect ");
            append_quoted(&mut m, stack[stack.len() - 1].1.name.as_slice());
            append_str(&mut m, ", found ");
            append_quoted(&mut m, info.name.as_slice());
            Err(SyntaxError { message: m, range: info.range })
        } else {
            let (mut el, _, _) = stack.pop().unwrap();
            assert(layers_model(stack@) =~= before.drop_last());
            match el.directive.close(&info) {
                Err(e) => {
                    return Err(e);
                },
                Ok(()) => {},
            }
            push_node(stack, Node::Element(el));
            Ok(p)
        }
    }
}

#[verifier::spinoff_prover]
fn read_tag(
    dirs: &Vec<(Vec<u8>, DirectiveKind)>,
    s: &[u8],
    base: usize,
    right: &[u8],
    left: Ghost<Seq<u8>>,
    stack: &mut Vec<Layer>,
    pos: usize,
) -> (r: Result<usize, SyntaxError>)
    requires
        pos <= s@.len(),
        base + s@.len() <= usize::MAX,
        old(stack)@.len() > 0,
    ensures
        match tag_step(
            Syntax {
                text: s@,
                base: base as int,
                left: left@,
                right: right@,
                dirs: registry_model(dirs@),
            },
            layers_model(old(stack)@),
            pos as int,
        ) {
            Ok((st, p)) => r matches Ok(q) && q == p && pos <= q <= s@.len() && layers_model(
                final(stack)@,
            ) == st && final(stack)@.len() > 0,
            Err(e) => r matches Err(x) && x@ == e,
        },
{
    reveal(tag_step);
    let mark = if pos < s.len() {
        mark_char(s[pos])
    } else {
        None
    };
    let p = match mark {
        Some(m) => match read_directive(dirs, s, base, Ghost(right@), left, stack, m, pos + 1) {
            Ok(p) => p,
            Err(e) => {
                return Err(e);
            },
        },
        None => match read_expr(s, base, pos) {
            Ok((e, p)) => {
                push_node(stack, Node::Expr(e));
                p
            },
            Err(e) => {
                return Err(e);
            },
        },
    };
    read_close(s, base, p, right)
}

fn finish_nodes(stack: &mut Vec<Layer>) -> (r: Result<Vec<Node>, SyntaxError>)
    requires
        old(stack)@.len() > 0,
    ensures
        nodes_result(r, finish(layers_model(old(stack)@))),
{
    let ghost before = layers_model(stack@);
    let (el, info, tags) = stack.pop().unwrap();
    assert(before.last() == layer_model((el, info, tags)));
    if stack.len() > 0 {
        let mut m: Vec<u8> = Vec::new();
        append_str(&mut m, "unmatched tag name ");
        append_quoted(&mut m, info.name.as_slice());
        Err(SyntaxError { message: m, range: info.range })
    } else {
        Ok(el.nodes)
    }
}

/// Reads `s` from `pos` on into the open elements of `stack`.
#[verifier::spinoff_prover]
pub fn read_nodes(
    dirs: &Vec<(Vec<u8>, DirectiveKind)>,
    s: &[u8],
    base: usize,
    left: &[u8],
    right: &[u8],
    stack: Vec<Layer>,
    pos: usize,
) -> (r: Result<Vec<Node>, SyntaxError>)
    requires
        pos <= s@.len(),
        base + s@.len() <= usize::MAX,
        stack@.len() > 0,
        left@.len() > 0,
    ensures
        nodes_result(
            r,
            read_from(
                Syntax {
                    text: s@,
                    base: base as int,
                    left: left@,
                    right: right@,
                    dirs: registry_model(dirs@),
                },
                layers_model(stack@),
                pos as int,
            ),
        ),
{
    let ghost x = Syntax {
        text: s@,
        base: base as int,
        left: left@,
        right: right@,
        dirs: registry_model(dirs@),
    };
    let ghost first = layers_model(stack@);
    let mut open = stack;
    let mut cur: usize = pos;
    let n = s.len();
    loop
        invariant
            cur <= s@.len() == n,
            base + s@.len() <= usize::MAX,
            open@.len() > 0,
            left@.len() > 0,
            first == layers_model(stack@),
            x == (Syntax {
                text: s@,
                base: base as int,
                left: left@,
                right: right@,
                dirs: registry_model(dirs@),
            }),
            read_from(x, first, pos as int) == read_from(x, layers_model(open@), cur as int),
        decreases s@.len() - cur,
    {
        match find(s, cur, left) {
            None => {
                push_text(&mut open, s, cur, n, cur > 0);
                return finish_nodes(&mut open);
            },
            Some(i) => {
                push_text(&mut open, s, cur, i, true);
                match read_tag(dirs, s, base, right, Ghost(left@), &mut open, i + left.len()) {
                    Err(e) => {
                        return Err(e);
                    },
                    Ok(p) => {
                        cur = p;
                    },
                }
            },
        }
    }
}

/// The state of a scan: the text, the position in it, and the elements that
/// are open.
pub struct Reader<'i> {
    input: &'i [u8],
    pos: usize,
    base: usize,
    left: &'i [u8],
    right: &'i [u8],
    dirs: &'i Vec<(Vec<u8>, DirectiveKind)>,
    stack: Vec<Layer>,
}

impl<'i> Reader<'i> {
    /// What the reader reads, and how.
    pub closed spec fn syntax(&self) -> Syntax {
        Syntax {
            text: self.input@,
            base: self.base as int,
            left: self.left@,
            right: self.right@,
            dirs: registry_model(self.dirs@),
        }
    }

    /// The position in the text.
    pub closed spec fn position(&self) -> int {
        self.pos as int
    }

    /// The open elements.
    pub closed spec fn layers(&self) -> Seq<LayerV> {
        layers_model(self.stack@)
    }

    /// The position lies in the text, and the ranges of the text can be stated.
    pub closed spec fn wf(&self) -> bool {
        self.pos <= self.input@.len() && self.base + self.input@.len() <= usize::MAX
    }

    /// The reader with its position at `pos`.
    pub closed spec fn at(self, pos: int) -> Self {
        Reader { pos: pos as usize, ..self }
    }

    /// A reader at the start of `input`, whose ranges are counted from `offset`.
    pub fn new(
        input: &'i str,
        offset: usize,
        meta: &'i MetaSyntax<'i>,
        dirs: &'i Vec<(Vec<u8>, DirectiveKind)>,
    ) -> (r: Self)
        requires
            offset + lit(input).len() <= usize::MAX,
        ensures
            r.wf(),
            r.position() == 0,
            r.layers() == seq![root_layer()],
            r.syntax() == (Syntax {
                text: lit(input),
                base: offset as int,
                left: lit(meta.left),
                right: lit(meta.right),
                dirs: registry_model(dirs@),
            }),
    {
        Reader::with(input.as_bytes(), offset, meta.left.as_bytes(), meta.right.as_bytes(), dirs)
    }

    /// A reader at the start of the bytes `input`, with the delimiters `left`
    /// and `right`.
    pub fn with(
        input: &'i [u8],
        offset: usize,
        left: &'i [u8],
        right: &'i [u8],
        dirs: &'i Vec<(Vec<u8>, DirectiveKind)>,
    ) -> (r: Self)
        requires
            offset + input@.len() <= usize::MAX,
        ensures
            r.wf(),
            r.position() == 0,
            r.layers() == seq![root_layer()],
            r.syntax() == (Syntax {
                text: input@,
                base: offset as int,
                left: left@,
                right: right@,
                dirs: registry_model(dirs@),
            }),
    {
        let root = Element::new(Directive::Stub(Stub));
        let info = TagInfo { name: Vec::new(), range: (0, 0), mark: '\0' };
        let tags: Vec<TagInfo> = Vec::new();
        assert(tags_model(tags@) =~= Seq::empty());
        assert(info.name@ =~= Seq::empty());
        let mut stack: Vec<Layer> = Vec::new();
        stack.push((root, info, tags));
        assert(layers_model(stack@) =~= seq![root_layer()]);
        Reader { input, pos: 0, base: offset, left, right, dirs, stack }
    }

    /// Moves the position `offset` bytes on.
    pub fn skip(&mut self, offset: usize)
        requires
            old(self).wf(),
            old(self).position() + offset <= old(self).syntax().text.len(),
        ensures
            *final(self) == old(self).at(old(self).position() + offset),
            final(self).position() == old(self).position() + offset,
            final(self).syntax() == old(self).syntax(),
            final(self).layers() == old(self).layers(),
            final(self).wf(),
    {
        self.pos = self.pos + offset;
    }

    /// Moves the position past the whitespace at it.
    pub fn trim_start(&mut self)
        requires
            old(self).wf(),
        ensures
            *final(self) == old(self).at(
                after_spaces(old(self).syntax().text, old(self).position()),
            ),
            final(self).position() == after_spaces(
                old(self).syntax().text,
                old(self).position(),
            ),
            final(self).syntax() == old(self).syntax(),
            final(self).layers() == old(self).layers(),
            final(self).wf(),
    {
        self.pos = skip_spaces(self.input, self.pos);
    }

    /// Reads an expression, and moves past it and the whitespace after it.
    pub fn parse_expr(&mut self) -> (r: Result<Expr, SyntaxError>)
        requires
            old(self).wf(),
        ensures
            final(self).wf(),
            final(self).syntax() == old(self).syntax(),
            final(self).layers() == old(self).layers(),
            match expr_step(old(self).syntax().text, old(self).syntax().base, old(self).position()) {
                Ok((e, p)) => r matches Ok(x) && x@ == e && *final(self) == old(self).at(p)
                    && final(self).position() == p,
                Err(e) => r matches Err(x) && x@ == e && *final(self) == *old(self),
            },
    {
        match read_expr(self.input, self.base, self.pos) {
            Ok((e, p)) => {
                self.pos = p;
                Ok(e)
            },
            Err(e) => Err(e),
        }
    }

    /// Reads a pattern, and moves past it and the whitespace after it.
    pub fn parse_pattern(&mut self) -> (r: Result<Pattern, SyntaxError>)
        requires
            old(self).wf(),
        ensures
            final(self).wf(),
            final(self).syntax() == old(self).syntax(),
            final(self).layers() == old(self).layers(),
            match pattern_step(
                old(self).syntax().text,
                old(self).syntax().base,
                old(self).position(),
            ) {
                Ok((e, p)) => r matches Ok(x) && x@ == e && *final(self) == old(self).at(p)
                    && final(self).position() == p,
                Err(e) => r matches Err(x) && x@ == e && *final(self) == *old(self),
            },
    {
        match read_pattern(self.input, self.base, self.pos) {
            Ok((e, p)) => {
                self.pos = p;
                Ok(e)
            },
            Err(e) => Err(e),
        }
    }

    /// Reads a name of letters and digits, and moves past it and the
    /// whitespace after it.
    pub fn parse_ident(&mut self) -> (r: Result<(Vec<u8>, (usize, usize)), SyntaxError>)
        requires
            old(self).wf(),
        ensures
            final(self).wf(),
            final(self).syntax() == old(self).syntax(),
            final(self).layers() == old(self).layers(),
            match name_step(old(self).syntax().text, old(self).syntax().base, old(self).position()) {
                Ok((n, range, p)) => r matches Ok(x) && x.0@ == n && x.1 == range && *final(self)
                    == old(self).at(p) && final(self).position() == p,
                Err(e) => r matches Err(x) && x@ == e && *final(self) == *old(self),
            },
    {
        match read_name(self.input, self.base, self.pos) {
            Ok((n, range, p)) => {
                self.pos = p;
                Ok((n, range))
            },
            Err(e) => Err(e),
        }
    }

    /// Reads the text `punct`, and moves past it and the whitespace after it.
    pub fn parse_punct(&mut self, punct: &str) -> (r: Result<(), SyntaxError>)
        requires
            old(self).wf(),
        ensures
            final(self).wf(),
            final(self).syntax() == old(self).syntax(),
            final(self).layers() == old(self).layers(),
            match punct_step(
                old(self).syntax().text,
                old(self).syntax().base,
                old(self).position(),
                lit(punct),
            ) {
                Ok(p) => r is Ok && *final(self) == old(self).at(p) && final(self).position() == p,
                Err(e) => r matches Err(x) && x@ == e && *final(self) == *old(self),
            },
    {
        match read_punct(self.input, self.base, self.pos, punct.as_bytes()) {
            Ok(p) => {
                self.pos = p;
                Ok(())
            },
            Err(e) => Err(e),
        }
    }

    /// Reads the word `keyword`, and moves past it.
    pub fn parse_keyword(&mut self, keyword: &str) -> (r: Result<(), SyntaxError>)
        requires
            old(self).wf(),
        ensures
            final(self).wf(),
            final(self).syntax() == old(self).syntax(),
            final(self).layers() == old(self).layers(),
            match keyword_step(
                old(self).syntax().text,
                old(self).syntax().base,
                old(self).position(),
                lit(keyword),
            ) {
                Ok(p) => r is Ok && *final(self) == old(self).at(p) && final(self).position() == p,
                Err(e) => r matches Err(x) && x@ == e && *final(self) == *old(self),
            },
    {
        match read_keyword(self.input, self.base, self.pos, keyword.as_bytes()) {
            Ok(p) => {
                self.pos = p;
                Ok(())
            },
            Err(e) => Err(e),
        }
    }

    /// Reads the right delimiter, and moves past it.
    pub fn tag_close(&mut self) -> (r: Result<(), SyntaxError>)
        requires
            old(self).wf(),
        ensures
            final(self).wf(),
            final(self).syntax() == old(self).syntax(),
            final(self).layers() == old(self).layers(),
            match close_step(
                old(self).syntax().text,
                old(self).syntax().base,
                old(self).position(),
                old(self).syntax().right,
            ) {
                Ok(p) => r is Ok && *final(self) == old(self).at(p) && final(self).position() == p,
                Err(e) => r matches Err(x) && x@ == e && *final(self) == *old(self),
            },
    {
        match read_close(self.input, self.base, self.pos, self.right) {
            Ok(p) => {
                self.pos = p;
                Ok(())
            },
            Err(e) => Err(e),
        }
    }

    /// Reads the rest of the text and gives the nodes of the template.
    pub fn run(self) -> (r: Result<Vec<Node>, SyntaxError>)
        requires
            self.wf(),
        ensures
            self.syntax().left.len() == 0 ==> (r matches Err(e) && e@ == syntax_error(
                lit("empty delimiter"),
                here(self.syntax().base, 0),
            )),
            self.syntax().left.len() > 0 && self.layers().len() > 0 ==> nodes_result(
                r,
                read_from(self.syntax(), self.layers(), self.position()),
            ),
            self.layers().len() == 0 && self.syntax().left.len() > 0 ==> (r matches Ok(v)
                && v@.len() == 0),
    {
        if self.left.len() == 0 {
            return Err(SyntaxError::new("empty delimiter", (self.base, self.base)));
        }
        if self.stack.len() == 0 {
            return Ok(Vec::new());
        }
        read_nodes(self.dirs, self.input, self.base, self.left, self.right, self.stack, self.pos)
    }
}

} // verus!
