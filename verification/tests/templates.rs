use yfelo::context::Context;
use yfelo::error::Error;
use yfelo::{MetaSyntax, Yfelo};

fn run_with(left: &str, right: &str, source: &str) -> Result<String, Error> {
    let yfelo = Yfelo::new();
    let meta = MetaSyntax { left, right };
    let mut ctx = Context::new();
    yfelo.run(source, &meta, &mut ctx).map(|out| String::from_utf8(out).unwrap())
}

fn render(source: &str) -> String {
    run_with("{", "}", source).unwrap()
}

#[test]
pub fn page_with_loops_and_conditions() {
    let source = "
        {@def items = [{name: 'a', price: 3}, {name: 'b', price: 0}]}
        {#for {name, price}, i in items}
            {i + 1}. {name}
            {#if price > 0}
                costs {price}
            {:else}
                is free
            {/if}
            ;
        {/for}
    ";
    assert_eq!(render(source), "1. acosts 3;2. bis free;");
}

#[test]
pub fn inline_tags_keep_their_spaces() {
    assert_eq!(render("a {1} b {2} c"), "a 1 b 2 c");
    assert_eq!(render("{@def x = 1} {x} "), " 1 ");
    assert_eq!(render("{1}\n{2}"), "12");
    assert_eq!(render("{1} \n x \n {2}"), "1x2");
}

#[test]
pub fn delimiters_of_several_bytes() {
    assert_eq!(run_with("<%", "%>", "a<% 1 + 1 %>b {c}").unwrap(), "a2b {c}");
    assert_eq!(run_with("[[", "]]", "[[#if [1][0] ]]x[[/if]]").unwrap(), "x");
    assert_eq!(run_with("${", "}", "${'$'}{2}").unwrap(), "${2}");
}

#[test]
pub fn empty_right_delimiter() {
    assert_eq!(run_with("$", "", "$a $1+1 b").unwrap(), "2b");
}

#[test]
pub fn trailing_commas_in_tags() {
    assert_eq!(render("{@def f(a, b = 2, ) = a + b}{@apply f(1, )}"), "3");
    assert_eq!(render("{#def g()}x{/def}{@apply g()}"), "x");
}

#[test]
pub fn computed_keys() {
    assert_eq!(render("{@def k = 'b'}{{(k): 1, ('a' + k): 2}}"), "{ab: 2, k: 1}");
    assert_eq!(render("{@def k = 'b'}{{('' + k): 1}}"), "{b: 1}");
    assert_eq!(render("{@def {('x' + 1): v} = {x1: 5}}{v}"), "5");
    assert_eq!(render("{@def o = {2: 'two'}}{o[1 + 1]}"), "two");
}

#[test]
pub fn functions_are_values() {
    assert_eq!(render("{@def f(x) = x + 1}{@def g = f}{g(1)}{[f][0](2)}"), "23");
    assert_eq!(render("{@def twice(f, x) = f(f(x))}{@def inc(x) = x + 1}{twice(inc, 5)}"), "7");
    assert_eq!(render("{#def row(x)}<{x}>{/def}{#for x in [1, 2]}{row(x)}{/for}"), "<1><2>");
}

#[test]
pub fn defaults_see_earlier_parameters() {
    assert_eq!(render("{@def f(a, b = a * 2) = a + b}{f(1)} {f(1, 1)}"), "3 2");
}

#[test]
pub fn nested_blocks_and_branches() {
    let source = "{#if false}A{:elif true}{#for x in [1, 2]}{#if x == 2}two{:else}one{/if},{/for}{:else}C{/if}";
    assert_eq!(render(source), "one,two,");
    let source = "{#if true}{#if false}a{:else}b{/if}{:else}c{/if}";
    assert_eq!(render(source), "b");
}

#[test]
pub fn bindings_in_an_else_branch_stay_there() {
    assert_eq!(render("{#if false}{:else}{@def a = 1}{a}{/if}{a}"), "1");
    assert_eq!(render("{#if false}{:elif true}{@def a = 1}{a}{/if}{a}"), "11");
}

#[test]
pub fn strings_with_escapes_and_braces() {
    assert_eq!(render("{'}' + \"{\" + '\\'' + \"\\\"\" + '\\\\' + '\\t'}"), "}{'\"\\\t");
}

#[test]
pub fn syntax_errors_in_a_page() {
    let err = run_with("{", "}", "a{#for x in [1]}{x}{/if}").unwrap_err();
    match err {
        Error::Syntax(e) => {
            assert_eq!(e.message, "unmatched tag name: expect 'for', found 'if'".as_bytes());
            assert_eq!(e.range, (21, 23));
        }
        Error::Runtime(e) => panic!("runtime error: {:?}", e),
    }
}
