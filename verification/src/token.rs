//! The flat scan of a template: text between tags, and tags whose interior is
//! taken up to the right delimiter that closes them, with brackets and string
//! literals inside the tag balanced.

use crate::error::{syntax_error, SyntaxError, SyntaxErrorV};
use crate::grammar::left;
use crate::text::{copy_range, find, find_from, lit, matches_at, starts_with_at};
use crate::MetaSyntax;
use vstd::prelude::*;

verus! {

/// A piece of a template.
#[derive(Debug, PartialEq, Eq)]
pub enum Token {
    /// Text outside every tag.
    Text(Vec<u8>),
    /// The interior of a tag, and its range in the source.
    Tag(Vec<u8>, (usize, usize)),
}

/// The model of a token.
pub enum TokenV {
    Text(Seq<u8>),
    Tag(Seq<u8>, (usize, usize)),
}

impl View for Token {
    type V = TokenV;

    open spec fn view(&self) -> TokenV {
        match self {
            Token::Text(t) => TokenV::Text(t@),
            Token::Tag(t, r) => TokenV::Tag(t@, *r),
        }
    }
}

/// The models of a list of tokens.
pub open spec fn tokens_model(v: Seq<Token>) -> Seq<TokenV> {
    Seq::new(v.len(), |i: int| v[i]@)
}

/// How the scan of a tag's interior ends.
pub enum TagScan {
    /// The right delimiter stands at this position, outside every bracket.
    End(int),
    /// The byte at this position closes a bracket that is not the innermost open one.
    Bad(int),
    /// The text ends inside the tag.
    Open,
}

/// The bracket that closes `b`, where `b` opens one.
pub open spec fn closer_of(b: u8) -> Option<u8> {
    if b == 40 {
        Some(41u8)
    } else if b == 91 {
        Some(93u8)
    } else if b == 123 {
        Some(125u8)
    } else {
        None
    }
}

/// The byte closes a bracket.
pub open spec fn is_closer(b: u8) -> bool {
    b == 41 || b == 93 || b == 125
}

/// The byte opens a string literal.
pub open spec fn is_quote(b: u8) -> bool {
    b == 34 || b == 39
}

/// Position after the string literal whose opening `quote` stands before `pos`.
pub open spec fn string_end(s: Seq<u8>, pos: int, quote: u8) -> Option<int>
    decreases left(s, pos),
{
    if pos < 0 || pos >= s.len() {
        None
    } else if s[pos] == quote {
        Some(pos + 1)
    } else if s[pos] == 92 {
        if pos + 1 < s.len() {
            string_end(s, pos + 2, quote)
        } else {
            None
        }
    } else {
        string_end(s, pos + 1, quote)
    }
}

/// Scans a tag's interior from `pos`; `stack` holds the closers that are owed,
/// innermost last.
pub open spec fn tag_end(s: Seq<u8>, pos: int, right: Seq<u8>, stack: Seq<u8>) -> TagScan
    decreases left(s, pos),
{
    if pos < 0 || pos >= s.len() {
        if stack.len() == 0 && matches_at(s, pos, right) {
            TagScan::End(pos)
        } else {
            TagScan::Open
        }
    } else if stack.len() == 0 && matches_at(s, pos, right) {
        TagScan::End(pos)
    } else if closer_of(s[pos]) is Some {
        tag_end(s, pos + 1, right, stack.push(closer_of(s[pos]).unwrap()))
    } else if is_closer(s[pos]) {
        if stack.len() > 0 && stack.last() == s[pos] {
            tag_end(s, pos + 1, right, stack.drop_last())
        } else {
            TagScan::Bad(pos)
        }
    } else if is_quote(s[pos]) {
        match string_end(s, pos + 1, s[pos]) {
            Some(end) => if pos < end <= s.len() {
                tag_end(s, end, right, stack)
            } else {
                TagScan::Open
            },
            None => TagScan::Open,
        }
    } else {
        tag_end(s, pos + 1, right, stack)
    }
}

/// The error of a tag that does not end, at the byte `at`.
pub open spec fn unterminated(at: int) -> SyntaxErrorV {
    syntax_error(lit("unterminated tag syntax"), (at as usize, (at + 1) as usize))
}

/// The tokens of `s` from `pos` on, appended to `acc`.
pub open spec fn tokens_from(
    s: Seq<u8>,
    pos: int,
    open: Seq<u8>,
    close: Seq<u8>,
    acc: Seq<TokenV>,
) -> Result<Seq<TokenV>, SyntaxErrorV>
    decreases left(s, pos),
{
    match find_from(s, pos, open) {
        None => Ok(
            if pos < s.len() {
                acc.push(TokenV::Text(s.subrange(pos, s.len() as int)))
            } else {
                acc
            },
        ),
        Some(i) => {
            let acc1 = if i > pos {
                acc.push(TokenV::Text(s.subrange(pos, i)))
            } else {
                acc
            };
            let start = i + open.len();
            match tag_end(s, start, close, Seq::empty()) {
                TagScan::End(j) => if pos < j + close.len() <= s.len() && start <= j {
                    tokens_from(
                        s,
                        j + close.len(),
                        open,
                        close,
                        acc1.push(TokenV::Tag(s.subrange(start, j), (start as usize, j as usize))),
                    )
                } else {
                    Err(unterminated(i))
                },
                TagScan::Bad(k) => Err(unterminated(k)),
                TagScan::Open => Err(unterminated(i)),
            }
        },
    }
}

/// The tokens of a template, or the error of the first tag that does not end.
/// An empty left delimiter is an error at the start of the text.
pub open spec fn tokens_of(s: Seq<u8>, open: Seq<u8>, close: Seq<u8>) -> Result<
    Seq<TokenV>,
    SyntaxErrorV,
> {
    if open.len() == 0 {
        Err(syntax_error(lit("empty delimiter"), (0, 0)))
    } else {
        tokens_from(s, 0, open, close, Seq::empty())
    }
}

fn skip_string(s: &[u8], pos: usize, quote: u8) -> (r: Option<usize>)
    requires
        pos <= s@.len(),
    ensures
        match r {
            Some(end) => string_end(s@, pos as int, quote) == Some(end as int) && pos < end
                <= s@.len(),
            None => string_end(s@, pos as int, quote) is None,
        },
{
    let mut i: usize = pos;
    loop
        invariant
            pos <= i <= s@.len(),
            string_end(s@, pos as int, quote) == string_end(s@, i as int, quote),
        decreases s@.len() - i,
    {
        if i >= s.len() {
            return None;
        }
        let b = s[i];
        if b == quote {
            return Some(i + 1);
        } else if b == 92 {
            if i + 1 < s.len() {
                i += 2;
            } else {
                return None;
            }
        } else {
            i += 1;
        }
    }
}

/// The outcome of `scan_tag`, with positions as machine integers.
pub enum Scan {
    End(usize),
    Bad(usize),
    Open,
}

impl View for Scan {
    type V = TagScan;

    open spec fn view(&self) -> TagScan {
        match self {
            Scan::End(j) => TagScan::End(*j as int),
            Scan::Bad(k) => TagScan::Bad(*k as int),
            Scan::Open => TagScan::Open,
        }
    }
}

/// Scans the interior of the tag that starts at `pos`.
pub fn scan_tag(s: &[u8], pos: usize, right: &[u8]) -> (r: Scan)
    requires
        pos <= s@.len(),
    ensures
        r@ == tag_end(s@, pos as int, right@, Seq::empty()),
        r matches Scan::End(j) ==> pos <= j && j + right@.len() <= s@.len(),
        r matches Scan::Bad(k) ==> pos <= k < s@.len(),
{
    let mut stack: Vec<u8> = Vec::new();
    let mut i: usize = pos;
    loop
        invariant
            pos <= i <= s@.len(),
            tag_end(s@, pos as int, right@, Seq::empty()) == tag_end(s@, i as int, right@, stack@),
        decreases s@.len() - i,
    {
        if stack.len() == 0 && starts_with_at(s, i, right) {
            return Scan::End(i);
        }
        if i >= s.len() {
            return Scan::Open;
        }
        let b = s[i];
        if b == 40 || b == 91 || b == 123 {
            let c: u8 = if b == 40 {
                41
            } else if b == 91 {
                93
            } else {
                125
            };
            stack.push(c);
            i += 1;
        } else if b == 41 || b == 93 || b == 125 {
            if stack.len() > 0 && stack[stack.len() - 1] == b {
                let ghost before = stack@;
                stack.pop();
                assert(stack@ =~= before.drop_last());
                i += 1;
            } else {
                return Scan::Bad(i);
            }
        } else if b == 34 || b == 39 {
            match skip_string(s, i + 1, b) {
                Some(end) => {
                    i = end;
                },
                None => {
                    return Scan::Open;
                },
            }
        } else {
            i += 1;
        }
    }
}

fn unterminated_at(at: usize) -> (r: SyntaxError)
    requires
        at < usize::MAX,
    ensures
        r@ == unterminated(at as int),
{
    SyntaxError::new("unterminated tag syntax", (at, at + 1))
}

/// Splits `source` into text and tags, with the delimiters of `meta`.
pub fn tokenize(source: &str, meta: &MetaSyntax) -> (r: Result<Vec<Token>, SyntaxError>)
    ensures
        match tokens_of(lit(source), lit(meta.left), lit(meta.right)) {
            Ok(tokens) => r matches Ok(v) && tokens_model(v@) == tokens,
            Err(e) => r matches Err(x) && x@ == e,
        },
{
    let s = source.as_bytes();
    let open = meta.left.as_bytes();
    let close = meta.right.as_bytes();
    if open.len() == 0 {
        return Err(SyntaxError::new("empty delimiter", (0, 0)));
    }
    let mut out: Vec<Token> = Vec::new();
    let mut pos: usize = 0;
    let n = s.len();
    assert(tokens_model(out@) =~= Seq::empty());
    loop
        invariant
            pos <= s@.len() == n,
            s@ == lit(source),
            open@ == lit(meta.left),
            close@ == lit(meta.right),
            open@.len() > 0,
            tokens_of(s@, open@, close@) == tokens_from(
                s@,
                pos as int,
                open@,
                close@,
                tokens_model(out@),
            ),
        decreases s@.len() - pos,
    {
        match find(s, pos, open) {
            None => {
                if pos < s.len() {
                    let ghost before = tokens_model(out@);
                    let t = Token::Text(copy_range(s, pos, s.len()));
                    out.push(t);
                    assert(tokens_model(out@) =~= before.push(t@));
                }
                return Ok(out);
            },
            Some(i) => {
                if i > pos {
                    let ghost before = tokens_model(out@);
                    let t = Token::Text(copy_range(s, pos, i));
                    out.push(t);
                    assert(tokens_model(out@) =~= before.push(t@));
                }
                let start = i + open.len();
                match scan_tag(s, start, close) {
                    Scan::End(j) => {
                        let ghost before = tokens_model(out@);
                        let t = Token::Tag(copy_range(s, start, j), (start, j));
                        out.push(t);
                        assert(tokens_model(out@) =~= before.push(t@));
                        pos = j + close.len();
                    },
                    Scan::Bad(k) => {
                        return Err(unterminated_at(k));
                    },
                    Scan::Open => {
                        return Err(unterminated_at(i));
                    },
                }
            },
        }
    }
}

} // verus!
