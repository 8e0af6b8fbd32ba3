use yfelo::context::Context;
use yfelo::directive::Node;
use yfelo::expr::Expr;
use yfelo::{Language, Yfelo};

fn engine() -> Yfelo {
    let mut yfelo = Yfelo::new();
    yfelo.add_language("default", Language);
    yfelo
}

#[test]
pub fn header_declares_the_delimiters() {
    let yfelo = engine();
    let header = yfelo.prepare("{@yfelo}", false).unwrap();
    assert_eq!(header.left(), "{".as_bytes());
    assert_eq!(header.right(), "}".as_bytes());
    assert_eq!(header.offset(), 0);
    let nodes = header.parse("a{b}").unwrap();
    assert_eq!(
        nodes,
        vec![Node::Text("a".into()), Node::Expr(Expr::Ident("b".into(), Some((2, 3))))]
    );
    let mut ctx = Context::new();
    let out = header.render("{@def b = 2}{b + 1}", &mut ctx).unwrap();
    assert_eq!(out, "3".as_bytes());
}

#[test]
pub fn header_line_is_stripped_and_skipped() {
    let yfelo = engine();
    let document = "  <%  @yfelo %>  \n\n  Hello <% name %>";
    let header = yfelo.prepare(document, true).unwrap();
    assert_eq!(header.left(), "<%".as_bytes());
    assert_eq!(header.right(), "%>".as_bytes());
    assert_eq!(header.offset(), 21);
    let nodes = header.parse(&document[header.offset()..]).unwrap();
    assert_eq!(
        nodes,
        vec![
            Node::Text("Hello ".into()),
            Node::Expr(Expr::Ident("name".into(), Some((30, 34)))),
        ]
    );
    assert_eq!(&document[30..34], "name");
}

#[test]
pub fn header_errors() {
    let yfelo = engine();
    let err = yfelo.prepare("no header\n{@yfelo}", true).unwrap_err();
    assert_eq!(err.message, "missing @yfelo directive".as_bytes());
    assert_eq!(err.range, (0, 0));
    let err = Yfelo::new().prepare("{@yfelo}", true).unwrap_err();
    assert_eq!(err.message, "missing default language".as_bytes());
    assert_eq!(err.range, (0, 0));
}

#[test]
pub fn text_is_bytes_of_utf8() {
    let yfelo = engine();
    let header = yfelo.prepare("{@yfelo}", false).unwrap();
    let nodes = header.parse("h\u{e9}llo {'w\u{f6}rld'}").unwrap();
    assert_eq!(
        nodes,
        vec![
            Node::Text("h\u{e9}llo ".into()),
            Node::Expr(Expr::String("w\u{f6}rld".into(), Some((8, 16)))),
        ]
    );
    let mut ctx = Context::new();
    let out = header.render("h\u{e9}llo {'w\u{f6}rld'}", &mut ctx).unwrap();
    assert_eq!(String::from_utf8(out).unwrap(), "h\u{e9}llo w\u{f6}rld");
}

#[test]
pub fn document_with_header() {
    let yfelo = engine();
    let nodes = yfelo.parse_document("[ @yfelo ]\n\n[x]").unwrap();
    assert_eq!(nodes, vec![Node::Expr(Expr::Ident("x".into(), Some((13, 14))))]);
    let mut ctx = Context::new();
    let out = yfelo.render_document("{@yfelo}\nHello {1 + 1}", &mut ctx).unwrap();
    assert_eq!(out, "Hello 2".as_bytes());
    let err = yfelo.parse_document("Hello").unwrap_err();
    assert_eq!(err.message, "missing @yfelo directive".as_bytes());
    let err = yfelo.parse_document("{@yfelo}\n\n  {#if x}").unwrap_err();
    assert_eq!(err.message, "unmatched tag name 'if'".as_bytes());
    assert_eq!(err.range, (14, 16));
}
