use yfelo::directive::{Directive, DirectiveKind, Element, Node, Stub};
use yfelo::error::SyntaxError;
use yfelo::expr::Expr;
use yfelo::{MetaSyntax, Yfelo};

const META: MetaSyntax = MetaSyntax { left: "{", right: "}" };

fn parse(source: &str) -> Result<Vec<Node>, SyntaxError> {
    let mut yfelo = Yfelo::new();
    yfelo.add_directive("foo", DirectiveKind::Stub);
    yfelo.add_directive("bar", DirectiveKind::Stub);
    yfelo.parse(source, &META)
}

fn ident(name: &str, range: (usize, usize)) -> Expr {
    Expr::Ident(name.into(), Some(range))
}

fn stub(nodes: Vec<Node>) -> Node {
    Node::Element(Element { directive: Directive::Stub(Stub), nodes, branches: vec![] })
}

#[test]
pub fn reader_basic_1() {
    let nodes = parse("(Hello) {world}!").unwrap();
    assert_eq!(
        nodes,
        vec![
            Node::Text("(Hello) ".into()),
            Node::Expr(ident("world", (9, 14))),
            Node::Text("!".into()),
        ]
    );
}

#[test]
pub fn reader_basic_2() {
    let nodes = parse("{world}").unwrap();
    assert_eq!(nodes, vec![Node::Expr(ident("world", (1, 6)))]);
}

#[test]
pub fn reader_basic_3() {
    let nodes = parse("{w(or[ld])}").unwrap();
    assert_eq!(
        nodes,
        vec![Node::Expr(Expr::Apply(
            Box::from(ident("w", (1, 2))),
            vec![Expr::Index(
                Box::from(ident("or", (3, 5))),
                Box::from(ident("ld", (6, 8))),
                true,
                Some((5, 9)),
            )],
            Some((2, 10)),
        ))]
    );
}

#[test]
pub fn reader_basic_4() {
    let nodes = parse("{{w:or,ld}}!").unwrap();
    assert_eq!(
        nodes,
        vec![
            Node::Expr(Expr::Object(
                vec![
                    (ident("w", (2, 3)), Some(ident("or", (4, 6)))),
                    (ident("ld", (7, 9)), None),
                ],
                Some((1, 10)),
            )),
            Node::Text("!".into()),
        ]
    );
}

#[test]
pub fn reader_invalid_tag_1() {
    let err = parse("{Hello} {world").unwrap_err();
    assert_eq!(
        err,
        SyntaxError { message: "invalid tag syntax: expect '}'".into(), range: (14, 14) }
    );
}

#[test]
pub fn reader_invalid_tag_2() {
    let err = parse("{Hel(lo}").unwrap_err();
    assert_eq!(
        err,
        SyntaxError { message: "invalid tag syntax: expect '}'".into(), range: (4, 4) }
    );
}

#[test]
pub fn reader_invalid_tag_3() {
    let err = parse("{Hel)lo}").unwrap_err();
    assert_eq!(
        err,
        SyntaxError { message: "invalid tag syntax: expect '}'".into(), range: (4, 4) }
    );
}

#[test]
pub fn reader_invalid_tag_4() {
    let err = parse("{H(e[l)l]o}").unwrap_err();
    assert_eq!(
        err,
        SyntaxError { message: "invalid tag syntax: expect '}'".into(), range: (2, 2) }
    );
}

#[test]
pub fn reader_tag_1() {
    let nodes = parse("{#foo}Hello{/foo} {#bar}world{/bar}!").unwrap();
    assert_eq!(
        nodes,
        vec![
            stub(vec![Node::Text("Hello".into())]),
            Node::Text(" ".into()),
            stub(vec![Node::Text("world".into())]),
            Node::Text("!".into()),
        ]
    );
}

#[test]
pub fn reader_tag_2() {
    let nodes = parse("{#foo}Hello{@bar} {#bar}world{/bar}!{/foo}").unwrap();
    assert_eq!(
        nodes,
        vec![stub(vec![
            Node::Text("Hello".into()),
            stub(vec![]),
            Node::Text(" ".into()),
            stub(vec![Node::Text("world".into())]),
            Node::Text("!".into()),
        ])]
    );
}

#[test]
pub fn reader_unmatched_tag_1() {
    let error = parse("{#foo}Hello {#bar}world{/foo}!{/bar}").unwrap_err();
    assert_eq!(error.message, "unmatched tag name: expect 'bar', found 'foo'".as_bytes());
    assert_eq!(error.range, (25, 28));
}

#[test]
pub fn reader_unmatched_tag_2() {
    let error = parse("{#foo}Hello{/foo} world{/bar}!").unwrap_err();
    assert_eq!(error.message, "unmatched tag name 'bar'".as_bytes());
    assert_eq!(error.range, (25, 28));
}

#[test]
pub fn unmatched_tag_3() {
    let error = parse("{#foo}Hello{/foo} world{#bar}!").unwrap_err();
    assert_eq!(error.message, "unmatched tag name 'bar'".as_bytes());
    assert_eq!(error.range, (25, 28));
}

#[test]
pub fn token_parse_1() {
    let nodes = parse("Hello {world}!").unwrap();
    assert_eq!(nodes.len(), 3);
    assert_eq!(nodes[0], Node::Text("Hello ".into()));
    assert_eq!(nodes[1], Node::Expr(ident("world", (7, 12))));
    assert_eq!(nodes[2], Node::Text("!".into()));
}

#[test]
pub fn token_parse_2() {
    let nodes = parse("{#foo}Hello{/foo} {#bar}world{/bar}!").unwrap();
    assert_eq!(nodes.len(), 4);
    if let Node::Element(element) = &nodes[0] {
        assert_eq!(element.directive, Directive::Stub(Stub));
        assert_eq!(element.nodes.len(), 1);
        assert_eq!(element.nodes[0], Node::Text("Hello".into()));
    } else {
        panic!("Expected Node::Element");
    }
    assert_eq!(nodes[1], Node::Text(" ".into()));
    if let Node::Element(element) = &nodes[2] {
        assert_eq!(element.directive, Directive::Stub(Stub));
        assert_eq!(element.nodes.len(), 1);
        assert_eq!(element.nodes[0], Node::Text("world".into()));
    } else {
        panic!("Expected Node::Element");
    }
    assert_eq!(nodes[3], Node::Text("!".into()));
}

#[test]
pub fn token_parse_3() {
    let nodes = parse("{#foo}Hello {#bar}world{/bar}!{/foo}").unwrap();
    assert_eq!(nodes.len(), 1);
    if let Node::Element(element) = &nodes[0] {
        assert_eq!(element.nodes.len(), 3);
        assert_eq!(element.nodes[0], Node::Text("Hello ".into()));
        if let Node::Element(element) = &element.nodes[1] {
            assert_eq!(element.nodes.len(), 1);
            assert_eq!(element.nodes[0], Node::Text("world".into()));
        } else {
            panic!("Expected Node::Element");
        }
        assert_eq!(element.nodes[2], Node::Text("!".into()));
    } else {
        panic!("Expected Node::Element");
    }
}

#[test]
pub fn unmatched_close_names_both_tags() {
    let error = parse("{#foo}x{/bar}").unwrap_err();
    assert_eq!(error.message, "unmatched tag name: expect 'foo', found 'bar'".as_bytes());
    assert_eq!(error.range, (9, 12));
}

#[test]
pub fn unclosed_block_reports_its_opening() {
    let error = parse("x{#foo}").unwrap_err();
    assert_eq!(error.message, "unmatched tag name 'foo'".as_bytes());
    assert_eq!(error.range, (3, 6));
    let error = parse("{#foo}{#bar}").unwrap_err();
    assert_eq!(error.message, "unmatched tag name 'bar'".as_bytes());
    assert_eq!(error.range, (8, 11));
}

#[test]
pub fn unknown_directive() {
    let error = parse("{@baz}").unwrap_err();
    assert_eq!(error.message, "unknown directive 'baz'".as_bytes());
    assert_eq!(error.range, (2, 5));
    let error = parse("{#foo}{:baz}{/foo}").unwrap_err();
    assert_eq!(error.message, "unknown directive 'foo:baz'".as_bytes());
    assert_eq!(error.range, (8, 11));
}

#[test]
pub fn branch_outside_a_block() {
    let error = parse("{:else}").unwrap_err();
    assert_eq!(error.message, "unmatched tag name 'else'".as_bytes());
    assert_eq!(error.range, (2, 6));
}

#[test]
pub fn missing_directive_name() {
    let error = parse("{#}").unwrap_err();
    assert_eq!(error.message, "invalid tag syntax: missing directive name".as_bytes());
    assert_eq!(error.range, (2, 2));
}

#[test]
pub fn empty_expression_tag() {
    let error = parse("a{}").unwrap_err();
    assert_eq!(error.message, "expect expression".as_bytes());
    assert_eq!(error.range, (2, 2));
}

#[test]
pub fn other_delimiters() {
    let yfelo = Yfelo::new();
    let meta = MetaSyntax { left: "<%", right: "%>" };
    let nodes = yfelo.parse("a <% b[0] %> c {d}", &meta).unwrap();
    assert_eq!(
        nodes,
        vec![
            Node::Text("a ".into()),
            Node::Expr(Expr::Index(
                Box::from(ident("b", (5, 6))),
                Box::from(Expr::Number(0, Some((7, 8)))),
                true,
                Some((6, 9)),
            )),
            Node::Text(" c {d}".into()),
        ]
    );
    let meta = MetaSyntax { left: "", right: "}" };
    let error = yfelo.parse("abc", &meta).unwrap_err();
    assert_eq!(error.message, "empty delimiter".as_bytes());
    assert_eq!(error.range, (0, 0));
}

#[test]
pub fn text_around_tags_is_trimmed_by_line() {
    let nodes = parse("\n  a  \n{x}  b \n {y} c\n").unwrap();
    assert_eq!(
        nodes,
        vec![
            Node::Text("a".into()),
            Node::Expr(ident("x", (8, 9))),
            Node::Text("  b".into()),
            Node::Expr(ident("y", (17, 18))),
            Node::Text(" c".into()),
        ]
    );
}

#[test]
pub fn text_without_tags_is_kept() {
    let nodes = parse("\n  a  \n").unwrap();
    assert_eq!(nodes, vec![Node::Text("\n  a  \n".into())]);
    assert_eq!(parse("").unwrap(), vec![]);
}

#[test]
pub fn postfix_chain_groups_to_the_left() {
    let nodes = parse("{a[0].b}").unwrap();
    assert_eq!(
        nodes,
        vec![Node::Expr(Expr::Index(
            Box::from(Expr::Index(
                Box::from(ident("a", (1, 2))),
                Box::from(Expr::Number(0, Some((3, 4)))),
                true,
                Some((2, 5)),
            )),
            Box::from(Expr::String("b".into(), Some((6, 7)))),
            false,
            Some((5, 7)),
        ))]
    );
}

#[test]
pub fn token_unmatched_tag_1() {
    let error = parse("{#foo}Hello {#bar}world{/foo}!{/bar}").unwrap_err();
    assert_eq!(error.message, "unmatched tag name: expect 'bar', found 'foo'".as_bytes());
    assert_eq!(error.range, (25, 28));
}

#[test]
pub fn token_unmatched_tag_2() {
    let error = parse("{#foo}Hello{/foo} world{/bar}!").unwrap_err();
    assert_eq!(error.message, "unmatched tag name 'bar'".as_bytes());
    assert_eq!(error.range, (25, 28));
}
