use yfelo::context::Context;
use yfelo::error::{Error, RuntimeError};
use yfelo::expr::Pattern;
use yfelo::value::Value;
use yfelo::{MetaSyntax, Yfelo};

const META: MetaSyntax = MetaSyntax { left: "{", right: "}" };

fn run(source: &str, ctx: &mut Context) -> Result<String, Error> {
    let yfelo = Yfelo::new();
    yfelo.run(source, &META, ctx).map(|out| String::from_utf8(out).unwrap())
}

fn render(source: &str) -> String {
    run(source, &mut Context::new()).unwrap()
}

fn fails(source: &str) -> RuntimeError {
    match run(source, &mut Context::new()).unwrap_err() {
        Error::Runtime(e) => e,
        Error::Syntax(e) => panic!("syntax error: {:?}", e),
    }
}

#[test]
pub fn writer_basic_1() {
    let output = render(
        "
        {@def world = 'yfelo'}
        Hello, {world}!
    ",
    );
    assert_eq!(output, "Hello, yfelo!");
}

#[test]
pub fn writer_bound_by_the_host() {
    let mut ctx = Context::new();
    ctx.bind(&Pattern::Ident("world".into(), None), Value::String("yfelo".into())).unwrap();
    let output = run("Hello, {world}!", &mut ctx).unwrap();
    assert_eq!(output, "Hello, yfelo!");
}

#[test]
pub fn def_inline_1() {
    let output = render(
        "
        {@def foo = 'bar'}
        {@def bar = 'foo'}
        {foo + bar}
    ",
    );
    assert_eq!(output, "barfoo");
}

#[test]
pub fn def_block_1() {
    let output = render(
        "
        {#def text}
            Hello, world!
        {/def}
        {@apply text}
    ",
    );
    assert_eq!(output, "Hello, world!");
}

#[test]
pub fn def_block_2() {
    let output = render(
        "
        {#def text(world)}
            Hello, {world}!
        {/def}
        {@apply text('yfelo')}
    ",
    );
    assert_eq!(output, "Hello, yfelo!");
}

#[test]
pub fn def_default_1() {
    let output = render(
        "
        {#def text(world = 'yfelo')}
            Hello, {world}!
        {/def}
        {@apply text}
    ",
    );
    assert_eq!(output, "Hello, yfelo!");
}

#[test]
pub fn text_without_tags_renders_as_itself() {
    assert_eq!(render("\n  plain text \n"), "\n  plain text \n");
    assert_eq!(render(""), "");
}

#[test]
pub fn block_tags_on_their_own_lines_leave_no_blank_lines() {
    assert_eq!(render("\n  {#if true}\n  X\n  {/if}\n"), "X");
    assert_eq!(render("a {#if true}b{/if} c"), "a b c");
}

#[test]
pub fn greet_with_default_and_argument() {
    let def = "{#def greet(name='world')}Hello, {name}!{/def}";
    assert_eq!(render(&format!("{}{}", def, "{@apply greet}")), "Hello, world!");
    assert_eq!(render(&format!("{}{}", def, "{@apply greet('yfelo')}")), "Hello, yfelo!");
}

#[test]
pub fn inline_function_and_call_expression() {
    assert_eq!(render("{@def double(x) = x * 2}{double(21)}"), "42");
    assert_eq!(render("{@def add(x, y = 10) = x + y}{add(1)} {add(1, 2)}"), "11 3");
    assert_eq!(render("{@def pair([a, b]) = a - b}{pair([5, 3])}"), "2");
}

#[test]
pub fn call_errors() {
    assert_eq!(fails("{@def f(x) = x}{f()}"), RuntimeError::Missing("x".into()));
    assert_eq!(fails("{@def f([a, b], {c: d, e}) = a}{f()}"), RuntimeError::Missing("[a, b]".into()));
    assert_eq!(fails("{@def f(x) = x}{f(1, 2)}"), RuntimeError::Arguments(1, 2));
    assert_eq!(
        String::from_utf8(fails("{@def f(x) = x}{f(1, 2)}").message()).unwrap(),
        "expect 1 arguments, found 2"
    );
    assert_eq!(
        String::from_utf8(fails("{@apply f}").message()).unwrap(),
        "expect function, found null"
    );
    assert_eq!(
        String::from_utf8(fails("{@def f(x) = x}{f()}").message()).unwrap(),
        "missing required argument 'x'"
    );
}

#[test]
pub fn endless_recursion_is_an_error() {
    assert_eq!(fails("{@def f(x) = f(x)}{f(1)}"), RuntimeError::Depth);
    assert_eq!(fails("{#def f}{@apply f}{/def}{@apply f}"), RuntimeError::Depth);
    let mut ctx = Context::with_depth(3);
    let source = "{@def f(n) = g(n)}{@def g(n) = h(n)}{@def h(n) = n}{f(7)}";
    assert_eq!(run(source, &mut ctx).unwrap(), "7");
    let mut ctx = Context::with_depth(2);
    assert_eq!(run(source, &mut ctx).unwrap_err(), Error::Runtime(RuntimeError::Depth));
}

#[test]
pub fn recursion_within_the_limit() {
    let source = "{@def s(n) = [0, n + s(n - 1)][(n > 0) & 1]}{s(3)}";
    assert_eq!(fails(source), RuntimeError::Depth);
    let source = "{#def count(n)}{#if n > 0}{n}{@apply count(n - 1)}{/if}{/def}{@apply count(5)}";
    assert_eq!(render(source), "54321");
}

#[test]
pub fn a_call_sees_the_bindings_of_its_caller() {
    assert_eq!(render("{@def f() = y}{#for y in [1, 2]}{f()}{/for}"), "12");
}

#[test]
pub fn bindings_end_with_their_block() {
    assert_eq!(render("{#for x in [1]}{@def y = x}{y}{/for}[{x}{y}]"), "1[]");
    assert_eq!(render("{@def f(a) = a}{f(1)}[{a}]"), "1[]");
    assert_eq!(render("{#if true}{@def z = 1}{/if}{z}"), "1");
    assert_eq!(render("{#if false}{:else}{@def z = 1}{/if}[{z}]"), "[]");
}

#[test]
pub fn rebinding_and_shadowing() {
    assert_eq!(fails("{@def a = 1}{@def a = 2}"), RuntimeError::Defined("a".into()));
    assert_eq!(
        String::from_utf8(fails("{@def a = 1}{@def a = 2}").message()).unwrap(),
        "'a' is already defined"
    );
    assert_eq!(render("{@def a = 1}{#for a in [2]}{a}{/for}{a}"), "21");
}

#[test]
pub fn syntax_error_comes_before_rendering() {
    let mut ctx = Context::new();
    let err = run("{@def a = 1}{", &mut ctx).unwrap_err();
    assert!(matches!(err, Error::Syntax(_)));
    assert_eq!(run("[{a}]", &mut ctx).unwrap(), "[]");
}

#[test]
pub fn values_render_as_their_display() {
    assert_eq!(render("{null}|{true}|{-12}|{'s'}|{[1, null]}|{{b: 1, a: 'x'}}"), "|true|-12|s|[1, null]|{a: x, b: 1}");
    assert_eq!(render("{@def f(x) = x}{f}"), "fn");
}

#[test]
pub fn a_composite_value_equals_itself_only() {
    assert_eq!(render("{@def a = [1]}{a == a}"), "true");
    assert_eq!(render("{@def a = [1]}{a != a}"), "false");
    assert_eq!(render("{@def a = [1]}{@def b = a}{a == b}"), "true");
    assert_eq!(render("{@def a = [1]}{@def b = [1]}{a == b}"), "false");
    assert_eq!(render("{[1] == [1]}"), "false");
    assert_eq!(render("{@def o = {x: 1}}{o == o} {o == {x: 1}} {{} == {}}"), "true false false");
    assert_eq!(render("{@def f(x) = x}{@def g(x) = x}{f == f} {f == g}"), "true false");
    assert_eq!(render("{@def a = [[1]]}{a[0] == a[0]} {a[0] == [1]}"), "true false");
    assert_eq!(render("{@def a = [1]}{@def c = [a]}{c[0] == a}"), "true");
    assert_eq!(render("{@def id(x) = x}{@def a = [1]}{id(a) == a}"), "true");
    assert_eq!(render("{@def mk() = [1]}{mk() == mk()}"), "false");
    assert_eq!(render("{@def id(x) = x}{id([1]) == id([2])}"), "false");
    assert_eq!(render("{@def id(x) = x}{@def a = id([1])}{@def b = [2]}{a == b}"), "false");
    assert_eq!(
        render("{@def a = [0]}{#for x in [[1], [2]]}{x == x}{x == a};{/for}{@def b = [3]}{a == b}"),
        "truefalse;truefalse;false"
    );
    assert_eq!(render("{#def t}x{/def}{#def u}x{/def}{t == t} {t == u}"), "true false");
}

#[test]
pub fn serials_run_through_a_context() {
    let mut ctx = Context::new();
    assert_eq!(ctx.next_serial(), 0);
    assert_eq!(run("{@def a = [[1], {}]}{@def f(x) = x}", &mut ctx).unwrap(), "");
    assert_eq!(ctx.next_serial(), 4);
    assert_eq!(run("{a == a} {a == [[1], {}]} {f([]) == f([])}", &mut ctx).unwrap(), "true false false");
    assert_eq!(ctx.next_serial(), 9);
    let (expr, _) = yfelo::expr::Expr::parse("[a] == [a]", 0).unwrap();
    assert_eq!(ctx.eval(&expr).unwrap().to_string(), "false".as_bytes());
    assert_eq!(ctx.next_serial(), 9);
    assert_eq!(ctx.evaluate(&expr).unwrap().to_string(), "false".as_bytes());
    assert_eq!(ctx.next_serial(), 11);
}
