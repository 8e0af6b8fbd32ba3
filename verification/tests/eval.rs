use yfelo::context::Context;
use yfelo::error::RuntimeError;
use yfelo::expr::{Expr, Pattern};
use yfelo::operator::{BinaryOp, UnaryOp};
use yfelo::reader::TagInfo;
use yfelo::value::Value;

fn eval(ctx: &Context, source: &str) -> Result<Value, RuntimeError> {
    let (expr, len) = Expr::parse(source, 0).unwrap();
    assert_eq!(len, source.len());
    ctx.eval(&expr)
}

fn text(ctx: &Context, source: &str) -> String {
    String::from_utf8(eval(ctx, source).unwrap().to_string()).unwrap()
}

fn ident(name: &str) -> Pattern {
    Pattern::Ident(name.into(), None)
}

#[test]
pub fn arithmetic_precedence() {
    let ctx = Context::new();
    assert_eq!(text(&ctx, "1+2*3"), "7");
    assert_eq!(text(&ctx, "(1+2)*3"), "9");
    assert_eq!(text(&ctx, "2**3**2"), "512");
    assert_eq!(text(&ctx, "-2**2"), "4");
    assert_eq!(text(&ctx, "7/2"), "3");
    assert_eq!(text(&ctx, "-7/2"), "-3");
    assert_eq!(text(&ctx, "-7%2"), "-1");
    assert_eq!(text(&ctx, "7%-2"), "1");
    assert_eq!(text(&ctx, "1<<4"), "16");
    assert_eq!(text(&ctx, "-16>>2"), "-4");
    assert_eq!(text(&ctx, "-1>>63"), "-1");
    assert_eq!(text(&ctx, "6&3"), "2");
    assert_eq!(text(&ctx, "6|3"), "7");
    assert_eq!(text(&ctx, "6^3"), "5");
    assert_eq!(text(&ctx, "1 < 2 && 2 <= 2"), "true");
    assert_eq!(text(&ctx, "1 > 2 || 2 >= 3"), "false");
    assert_eq!(text(&ctx, "1 == 1"), "true");
    assert_eq!(text(&ctx, "1 != 1"), "false");
    assert_eq!(text(&ctx, "!0"), "true");
    assert_eq!(text(&ctx, "'a' + 1"), "a1");
    assert_eq!(text(&ctx, "\"a\\n\" + 'b'"), "a\nb");
}

#[test]
pub fn arithmetic_errors() {
    let ctx = Context::new();
    assert_eq!(eval(&ctx, "1/0").unwrap_err(), RuntimeError::DivideByZero);
    assert_eq!(eval(&ctx, "1%0").unwrap_err(), RuntimeError::DivideByZero);
    assert_eq!(eval(&ctx, "9223372036854775807+1").unwrap_err(), RuntimeError::OutOfRange);
    assert_eq!(eval(&ctx, "2**64").unwrap_err(), RuntimeError::OutOfRange);
    assert_eq!(eval(&ctx, "2**-1").unwrap_err(), RuntimeError::OutOfRange);
    assert_eq!(eval(&ctx, "1<<64").unwrap_err(), RuntimeError::OutOfRange);
    assert_eq!(text(&ctx, "1**9223372036854775807"), "1");
    assert_eq!(
        String::from_utf8(eval(&ctx, "1 - 'a'").unwrap_err().message()).unwrap(),
        "expect number, found string"
    );
    assert_eq!(
        String::from_utf8(eval(&ctx, "[] + 1").unwrap_err().message()).unwrap(),
        "cannot add array and number"
    );
    assert_eq!(
        String::from_utf8(eval(&ctx, "1[0]").unwrap_err().message()).unwrap(),
        "cannot index into number"
    );
    assert_eq!(
        String::from_utf8(eval(&ctx, "1(2)").unwrap_err().message()).unwrap(),
        "expect function, found number"
    );
}

#[test]
pub fn collections() {
    let ctx = Context::new();
    assert_eq!(text(&ctx, "[1, 'a', [true, null]]"), "[1, a, [true, null]]");
    assert_eq!(text(&ctx, "{b: 1, a: 2}"), "{a: 2, b: 1}");
    assert_eq!(text(&ctx, "{a: 1, a: 2}"), "{a: 2}");
    assert_eq!(text(&ctx, "[1, 2, 3][1]"), "2");
    assert_eq!(text(&ctx, "[1, 2, 3][3]"), "");
    assert_eq!(text(&ctx, "[1, 2, 3][-1]"), "");
    assert_eq!(text(&ctx, "{a: {b: 5}}.a.b"), "5");
    assert_eq!(text(&ctx, "{a: 1}['a']"), "1");
    assert_eq!(text(&ctx, "{a: 1}.c"), "");
    assert_eq!(text(&ctx, "{1: 'x'}[1]"), "x");
    assert_eq!(text(&ctx, "[1] == [1]"), "false");
    assert_eq!(eval(&ctx, "{'a'}").unwrap_err(), RuntimeError::Shorthand);
}

#[test]
pub fn reserved_names_shadow_bindings() {
    let mut ctx = Context::new();
    ctx.bind(&ident("true"), Value::Number(5)).unwrap();
    assert_eq!(text(&ctx, "true"), "true");
    assert_eq!(text(&ctx, "{true}"), "{true: 5}");
}

#[test]
pub fn scopes() {
    let mut ctx = Context::new();
    ctx.bind(&ident("a"), Value::Number(1)).unwrap();
    assert_eq!(
        ctx.bind(&ident("a"), Value::Number(2)).unwrap_err(),
        RuntimeError::Defined("a".into())
    );
    let mut inner = ctx.fork();
    assert_eq!(text(&inner, "a"), "1");
    inner.bind(&ident("a"), Value::Number(3)).unwrap();
    inner.bind(&ident("b"), Value::Number(4)).unwrap();
    assert_eq!(text(&inner, "a + b"), "7");
    assert_eq!(text(&ctx, "a"), "1");
    assert_eq!(text(&ctx, "b"), "");
}

#[test]
pub fn destructuring() {
    let mut ctx = Context::new();
    let (pat, _) = Pattern::parse("[a, [b, c], d]", 0).unwrap();
    let value = eval(&ctx, "[1, [2], 3, 4]").unwrap();
    ctx.bind(&pat, value).unwrap();
    assert_eq!(text(&ctx, "[a, b, c, d]"), "[1, 2, null, 3]");
    let (pat, _) = Pattern::parse("{x, y: [z], 'w': q}", 0).unwrap();
    let value = eval(&ctx, "{x: 1, y: [2], w: 3}").unwrap();
    ctx.bind(&pat, value).unwrap();
    assert_eq!(text(&ctx, "[x, z, q]"), "[1, 2, 3]");
    let (pat, _) = Pattern::parse("[m]", 0).unwrap();
    assert_eq!(
        String::from_utf8(ctx.bind(&pat, Value::Number(1)).unwrap_err().message()).unwrap(),
        "expect array, found number"
    );
    let (pat, _) = Pattern::parse("{m}", 0).unwrap();
    assert_eq!(
        String::from_utf8(ctx.bind(&pat, Value::Null).unwrap_err().message()).unwrap(),
        "expect object, found null"
    );
}

#[test]
pub fn runtime_error_messages() {
    let text = |e: RuntimeError| String::from_utf8(e.message()).unwrap();
    assert_eq!(text(RuntimeError::OutOfRange), "number out of range");
    assert_eq!(text(RuntimeError::DivideByZero), "division by zero");
    assert_eq!(text(RuntimeError::Depth), "call depth exceeded");
    assert_eq!(text(RuntimeError::Shorthand), "shorthand entry needs a name");
    assert_eq!(text(RuntimeError::Defined("x".into())), "'x' is already defined");
    assert_eq!(text(RuntimeError::Missing("[a]".into())), "missing required argument '[a]'");
    assert_eq!(text(RuntimeError::Arguments(2, 10)), "expect 2 arguments, found 10");
}

#[test]
pub fn shorthand_entries_need_a_name() {
    let mut ctx = Context::new();
    let (pat, _) = Pattern::parse("{'a'}", 0).unwrap();
    let value = eval(&ctx, "{a: 1}").unwrap();
    assert_eq!(ctx.bind(&pat, value).unwrap_err(), RuntimeError::Shorthand);
    let (pat, _) = Pattern::parse("{[1]: b}", 0).unwrap();
    let value = eval(&ctx, "{a: 1}").unwrap();
    assert_eq!(
        String::from_utf8(ctx.bind(&pat, value).unwrap_err().message()).unwrap(),
        "expect string, found array"
    );
}

#[test]
pub fn parse_gives_the_length_read() {
    let (expr, len) = Expr::parse(" a + b }", 3).unwrap();
    assert_eq!(len, 6);
    assert_eq!(
        expr,
        Expr::Binary(
            Box::new(Expr::Ident("a".into(), Some((4, 5)))),
            BinaryOp::Add,
            Box::new(Expr::Ident("b".into(), Some((8, 9)))),
            Some((6, 7)),
        )
    );
    let err = Expr::parse("}", 7).unwrap_err();
    assert_eq!(err.message, "expect expression".as_bytes());
    assert_eq!(err.range, (7, 7));
    let err = Pattern::parse("1", 7).unwrap_err();
    assert_eq!(err.message, "expect pattern".as_bytes());
    assert_eq!(err.range, (7, 7));
    assert!(Expr::parse("9223372036854775808", 0).is_err());
    assert_eq!(Expr::parse("'abc", 0).unwrap_err().range, (0, 0));
}

#[test]
pub fn operators_from_their_text() {
    assert_eq!(UnaryOp::from("!"), UnaryOp::Not);
    assert_eq!(UnaryOp::from("+"), UnaryOp::Pos);
    assert_eq!(UnaryOp::from("-"), UnaryOp::Neg);
    let table = [
        ("**", BinaryOp::Pow),
        ("*", BinaryOp::Mul),
        ("/", BinaryOp::Div),
        ("%", BinaryOp::Mod),
        ("+", BinaryOp::Add),
        ("-", BinaryOp::Sub),
        ("<<", BinaryOp::Shl),
        (">>", BinaryOp::Shr),
        ("<", BinaryOp::Lt),
        ("<=", BinaryOp::Le),
        (">", BinaryOp::Gt),
        (">=", BinaryOp::Ge),
        ("==", BinaryOp::Eq),
        ("!=", BinaryOp::Ne),
        ("&", BinaryOp::BitAnd),
        ("^", BinaryOp::BitXor),
        ("|", BinaryOp::BitOr),
        ("&&", BinaryOp::And),
        ("||", BinaryOp::Or),
    ];
    for (text, op) in table {
        assert_eq!(BinaryOp::from(text), op);
    }
}

#[test]
pub fn tag_guards() {
    let tag = |mark: char| TagInfo { name: "x".into(), range: (1, 2), mark };
    assert!(tag('#').expect_children().is_ok());
    assert!(tag(':').expect_children().is_ok());
    let err = tag('@').expect_children().unwrap_err();
    assert_eq!(err.message, "directive 'x' should not be empty".as_bytes());
    assert_eq!(err.range, (1, 2));
    assert!(tag('/').expect_children().is_err());
    assert!(tag('@').expect_empty().is_ok());
    let err = tag('#').expect_empty().unwrap_err();
    assert_eq!(err.message, "directive 'x' should be empty".as_bytes());
    assert_eq!(err.range, (1, 2));
    assert!(tag(':').expect_empty().is_err());
}
