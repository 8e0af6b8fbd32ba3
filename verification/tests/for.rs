use yfelo::context::Context;
use yfelo::directive::{Directive, Element, For, Node};
use yfelo::error::{Error, RuntimeError, SyntaxError};
use yfelo::expr::{Expr, Pattern};
use yfelo::{MetaSyntax, Yfelo};

const META: MetaSyntax = MetaSyntax { left: "{", right: "}" };

fn parse(source: &str) -> Result<Vec<Node>, SyntaxError> {
    Yfelo::new().parse(source, &META)
}

fn render(source: &str) -> Result<String, Error> {
    let mut ctx = Context::new();
    Yfelo::new().run(source, &META, &mut ctx).map(|out| String::from_utf8(out).unwrap())
}

#[test]
pub fn for_parse_1() {
    let error = parse("{#for}").unwrap_err();
    assert_eq!(error, SyntaxError { message: "expect pattern".into(), range: (5, 5) });
}

#[test]
pub fn for_parse_2() {
    let error = parse("{#for x}").unwrap_err();
    assert_eq!(error, SyntaxError { message: "expect keyword 'in'".into(), range: (7, 7) });
}

#[test]
pub fn for_parse_3() {
    let error = parse("{@for}").unwrap_err();
    assert_eq!(
        error,
        SyntaxError {
            message: "invalid syntax for directive 'for': directive 'for' should not be empty"
                .into(),
            range: (2, 5),
        }
    );
}

#[test]
pub fn for_parse_4() {
    let error = parse("{#for x in}").unwrap_err();
    assert_eq!(error, SyntaxError { message: "expect expression".into(), range: (10, 10) });
}

#[test]
pub fn for_parse_5() {
    let error = parse("{#for x in y z}").unwrap_err();
    assert_eq!(
        error,
        SyntaxError { message: "invalid tag syntax: expect '}'".into(), range: (13, 13) }
    );
}

#[test]
pub fn for_parse_6() {
    let error = parse("{#for x, y, z in w}").unwrap_err();
    assert_eq!(error, SyntaxError { message: "expect keyword 'in'".into(), range: (10, 10) });
}

#[test]
pub fn for_parse_7() {
    let nodes = parse("{#for x in y}{/for}").unwrap();
    assert_eq!(
        nodes,
        vec![Node::Element(Element {
            directive: Directive::For(For {
                vpat: Pattern::Ident("x".into(), Some((6, 7))),
                kpat: None,
                expr: Expr::Ident("y".into(), Some((11, 12))),
            }),
            nodes: vec![],
            branches: vec![],
        })]
    );
}

#[test]
pub fn parse_8() {
    let nodes = parse("{#for x, y in z}{/for}").unwrap();
    assert_eq!(
        nodes,
        vec![Node::Element(Element {
            directive: Directive::For(For {
                vpat: Pattern::Ident("x".into(), Some((6, 7))),
                kpat: Some(Pattern::Ident("y".into(), Some((9, 10)))),
                expr: Expr::Ident("z".into(), Some((14, 15))),
            }),
            nodes: vec![],
            branches: vec![],
        })]
    );
}

#[test]
pub fn for_render_1() {
    let output = render(
        "
        {#for a in [1, 2, 3]}
            {a * 2}
        {/for}
    ",
    )
    .unwrap();
    assert_eq!(output, "246");
}

#[test]
pub fn for_render_2() {
    let output = render(
        "
        {#for a, b in [1, 2, 3]}
            {b + 1}. {a * 2}
        {/for}
    ",
    )
    .unwrap();
    assert_eq!(output, "1. 22. 43. 6");
}

#[test]
pub fn for_render_3() {
    let output = render(
        "
        {#for x in {x: 2, y: 3, z: 1}}
            {x}
        {/for}
    ",
    )
    .unwrap();
    assert_eq!(output, "231");
}

#[test]
pub fn for_render_4() {
    let output = render(
        "
        {#for x, y in {x: 2, y: 3, z: 1}}
            {y}. {x}
        {/for}
    ",
    )
    .unwrap();
    assert_eq!(output, "x. 2y. 3z. 1");
}

#[test]
pub fn for_over_array_and_object() {
    assert_eq!(render("{#for x in [1,2,3]}{x*2}{/for}").unwrap(), "246");
    assert_eq!(render("{#for v,k in {a:1,b:2}}{k}={v};{/for}").unwrap(), "a=1;b=2;");
    assert_eq!(render("{#for v,k in {b:2,a:1}}{k}={v};{/for}").unwrap(), "a=1;b=2;");
    assert_eq!(render("{#for [a, b] in [[1, 2], [3]]}{a}{b};{/for}").unwrap(), "12;3;");
    assert_eq!(render("{#for x in []}x{/for}").unwrap(), "");
}

#[test]
pub fn for_over_a_number_fails() {
    let error = render("{#for x in 1}{x}{/for}").unwrap_err();
    match error {
        Error::Runtime(e) => {
            assert_eq!(
                String::from_utf8(e.message()).unwrap(),
                "expect array or object, found number"
            );
        }
        Error::Syntax(e) => panic!("syntax error: {:?}", e),
    }
    assert_eq!(
        render("{#for x, x in [1]}{x}{/for}").unwrap_err(),
        Error::Runtime(RuntimeError::Defined("x".into()))
    );
}
