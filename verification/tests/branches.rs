use yfelo::context::Context;
use yfelo::directive::{Directive, DirectiveKind, Node};
use yfelo::error::{Error, SyntaxError};
use yfelo::{MetaSyntax, Yfelo};

const META: MetaSyntax = MetaSyntax { left: "{", right: "}" };

fn parse(source: &str) -> Result<Vec<Node>, SyntaxError> {
    Yfelo::new().parse(source, &META)
}

fn render(source: &str) -> Result<String, Error> {
    let mut ctx = Context::new();
    Yfelo::new().run(source, &META, &mut ctx).map(|out| String::from_utf8(out).unwrap())
}

#[test]
pub fn if_parse_1() {
    let error = parse("{#if}").unwrap_err();
    assert_eq!(error, SyntaxError { message: "expect expression".into(), range: (4, 4) });
}

#[test]
pub fn if_parse_2() {
    let error = parse("{#if x x}").unwrap_err();
    assert_eq!(
        error,
        SyntaxError { message: "invalid tag syntax: expect '}'".into(), range: (7, 7) }
    );
}

#[test]
pub fn if_parse_3() {
    let error = parse("{@if}").unwrap_err();
    assert_eq!(
        error,
        SyntaxError {
            message: "invalid syntax for directive 'if': directive 'if' should not be empty".into(),
            range: (2, 4),
        }
    );
}

#[test]
pub fn if_parse_4() {
    let error = parse("{#if x}{:else y}").unwrap_err();
    assert_eq!(
        error,
        SyntaxError { message: "invalid tag syntax: expect '}'".into(), range: (14, 14) }
    );
}

#[test]
pub fn if_parse_5() {
    let error = parse("{#if x}{:else}{:else}{/if}").unwrap_err();
    assert_eq!(
        error,
        SyntaxError { message: "'else' cannot come after 'else'".into(), range: (16, 20) }
    );
}

#[test]
pub fn if_parse_6() {
    let error = parse("{#if x}{:elif}{:else}{/if}").unwrap_err();
    assert_eq!(error, SyntaxError { message: "expect expression".into(), range: (13, 13) });
}

#[test]
pub fn if_parse_7() {
    let error = parse("{#if x}{:else}{:elif x}{/if}").unwrap_err();
    assert_eq!(
        error,
        SyntaxError { message: "'elif' cannot come after 'else'".into(), range: (16, 20) }
    );
}

#[test]
pub fn if_render_1() {
    let output = render(
        "
        {#if true}
            Hello
        {:else}
            World
        {/if}
    ",
    )
    .unwrap();
    assert_eq!(output, "Hello");
}

#[test]
pub fn if_render_2() {
    let output = render(
        "
        {#if false}
            Hello
        {:else}
            World
        {/if}
    ",
    )
    .unwrap();
    assert_eq!(output, "World");
}

#[test]
pub fn if_render_3() {
    let output = render(
        "
        {#if false}
            Hello
        {:elif true}
            World
        {:else}
            Yfelo
        {/if}
    ",
    )
    .unwrap();
    assert_eq!(output, "World");
}

#[test]
pub fn if_render_4() {
    let output = render(
        "
        {#if false}
            Hello
        {:elif false}
            World
        {:elif false}
            Yfelo
        {/if}
    ",
    )
    .unwrap();
    assert_eq!(output, "");
}

#[test]
pub fn render_5() {
    let output = render(
        "
        {#if false}
            Hello
        {:elif false}
            World
        {:elif true}
            Yfelo
        {/if}
    ",
    )
    .unwrap();
    assert_eq!(output, "Yfelo");
}

#[test]
pub fn first_true_branch_wins() {
    assert_eq!(render("{#if false}A{:elif false}B{:elif true}C{:else}D{/if}").unwrap(), "C");
    assert_eq!(render("{#if false}A{:elif false}B{:elif false}C{/if}").unwrap(), "");
    assert_eq!(render("{#if false}A{:elif false}B{:else}D{/if}").unwrap(), "D");
    assert_eq!(render("{#if 1}A{:elif 1}B{:else}D{/if}").unwrap(), "A");
}

#[test]
pub fn branch_elements_are_attached_not_nested() {
    let nodes = parse("{#if a}1{:elif b}2{:else}3{/if}").unwrap();
    assert_eq!(nodes.len(), 1);
    if let Node::Element(element) = &nodes[0] {
        assert_eq!(element.nodes, vec![Node::Text("1".into())]);
        assert_eq!(element.branches.len(), 2);
        assert!(matches!(element.branches[0].directive, Directive::If(_)));
        assert_eq!(element.branches[0].nodes, vec![Node::Text("2".into())]);
        assert!(matches!(element.branches[1].directive, Directive::Stub(_)));
        assert_eq!(element.branches[1].nodes, vec![Node::Text("3".into())]);
    } else {
        panic!("Expected Node::Element");
    }
}

#[test]
pub fn a_branch_of_another_directive_renders_as_its_own_element() {
    let mut yfelo = Yfelo::new();
    yfelo.add_directive("if:each", DirectiveKind::For);
    let mut ctx = Context::new();
    let out = yfelo.run("{#if false}A{:each x in [1, 2]}{x}{/if}", &META, &mut ctx).unwrap();
    assert_eq!(String::from_utf8(out).unwrap(), "12");
}

#[test]
pub fn def_and_apply_tags() {
    assert_eq!(
        parse("{#def a = 1}{/def}").unwrap_err(),
        SyntaxError {
            message: "invalid syntax for directive 'def': directive 'def' should be empty".into(),
            range: (2, 5),
        }
    );
    assert_eq!(
        parse("{@def f(x)}").unwrap_err(),
        SyntaxError {
            message: "invalid syntax for directive 'def': directive 'def' should not be empty"
                .into(),
            range: (2, 5),
        }
    );
    assert_eq!(
        parse("{@def [a](x) = 1}").unwrap_err(),
        SyntaxError { message: "expected identifier".into(), range: (6, 9) }
    );
    assert_eq!(
        parse("{@def f(x = ) = 1}").unwrap_err(),
        SyntaxError { message: "expect expression".into(), range: (12, 12) }
    );
    assert_eq!(
        parse("{@def f(x y) = 1}").unwrap_err(),
        SyntaxError { message: "expected punctuation ')'".into(), range: (10, 10) }
    );
    assert_eq!(
        parse("{#apply f}{/apply}").unwrap_err(),
        SyntaxError {
            message: "invalid syntax for directive 'apply': directive 'apply' should be empty"
                .into(),
            range: (2, 7),
        }
    );
    assert_eq!(
        parse("{@apply}").unwrap_err(),
        SyntaxError { message: "expect identifier".into(), range: (7, 7) }
    );
    assert_eq!(
        parse("{@apply f(1}").unwrap_err(),
        SyntaxError { message: "expected punctuation ')'".into(), range: (11, 11) }
    );
}

#[test]
pub fn no_branch_after_any_else() {
    let tag = |name: &str, range: (usize, usize)| yfelo::reader::TagInfo {
        name: name.into(),
        range,
        mark: ':',
    };
    let tags = vec![tag("else", (1, 5)), tag("elif", (7, 11))];
    let err = yfelo::directive::If::branch(&tags, &tag("elif", (20, 24))).unwrap_err();
    assert_eq!(err.message, "'elif' cannot come after 'else'".as_bytes());
    assert_eq!(err.range, (20, 24));
    let tags = vec![tag("elif", (1, 5)), tag("elif", (7, 11))];
    assert!(yfelo::directive::If::branch(&tags, &tag("else", (20, 24))).is_ok());
    assert!(yfelo::directive::If::branch(&vec![], &tag("else", (20, 24))).is_ok());
    assert!(DirectiveKind::For.branch(&vec![tag("else", (1, 5))], &tag("else", (7, 11))).is_ok());
}
