use yfelo::context::Context;
use yfelo::expr::Expr;

#[test]
pub fn nested_parentheses() {
    let n = 40;
    let source = format!("{}1{}", "(".repeat(n), ")".repeat(n));
    let (expr, len) = Expr::parse(&source, 0).unwrap();
    assert_eq!(len, source.len());
    assert_eq!(expr, Expr::Number(1, Some((n, n + 1))));
}

#[test]
pub fn long_sum() {
    let n = 300;
    let source = format!("0{}", "+1".repeat(n));
    let (expr, len) = Expr::parse(&source, 0).unwrap();
    assert_eq!(len, source.len());
    let ctx = Context::new();
    let v = ctx.eval(&expr).unwrap();
    assert_eq!(v.to_string(), "300".as_bytes());
}

#[test]
pub fn spaces_inside_expressions() {
    let ctx = Context::new();
    let (expr, len) = Expr::parse("  [ 1 ,2 , 3 ] [ 1 ] + { a : 4 } . a  ", 0).unwrap();
    assert_eq!(len, 36);
    assert_eq!(ctx.eval(&expr).unwrap().to_string(), "6".as_bytes());
    let (expr, len) = Expr::parse("f ( 1 )", 0).unwrap();
    assert_eq!(len, 7);
    assert!(matches!(expr, Expr::Apply(_, _, Some((2, 7)))));
}

#[test]
pub fn what_does_not_parse_is_left_unread() {
    let (expr, len) = Expr::parse("a * }", 0).unwrap();
    assert_eq!(len, 1);
    assert_eq!(expr, Expr::Ident("a".into(), Some((0, 1))));
    let (expr, len) = Expr::parse("a || b |", 0).unwrap();
    assert_eq!(len, 6);
    assert!(matches!(expr, Expr::Binary(_, yfelo::operator::BinaryOp::Or, _, Some((2, 4)))));
    let (expr, len) = Expr::parse("a(1", 0).unwrap();
    assert_eq!(len, 1);
    assert_eq!(expr, Expr::Ident("a".into(), Some((0, 1))));
    let (expr, len) = Expr::parse("1.5", 0).unwrap();
    assert_eq!(len, 1);
    assert_eq!(expr, Expr::Number(1, Some((0, 1))));
    assert!(Expr::parse("[1,]", 0).is_err());
    assert!(Expr::parse("{a:}", 0).is_err());
}

#[test]
pub fn unary_operators_bind_tighter_than_power() {
    let ctx = Context::new();
    let value = |s: &str| {
        let (expr, _) = Expr::parse(s, 0).unwrap();
        String::from_utf8(ctx.eval(&expr).unwrap().to_string()).unwrap()
    };
    assert_eq!(value("-2 ** 2"), "4");
    assert_eq!(value("2 ** -1 ** 2"), "2");
    assert_eq!(value("!1 == false"), "true");
    assert_eq!(value("1 + 2 << 1"), "6");
    assert_eq!(value("1 << 2 < 5"), "true");
    assert_eq!(value("1 < 2 == true"), "true");
    assert_eq!(value("2 & 3 ^ 1"), "3");
    assert_eq!(value("1 ^ 3 | 4"), "6");
    assert_eq!(value("0 | 1 && 0"), "false");
    assert_eq!(value("1 && 0 || 1"), "true");
    assert_eq!(value("10 - 4 - 3"), "3");
    assert_eq!(value("100 / 10 / 5"), "2");
}
