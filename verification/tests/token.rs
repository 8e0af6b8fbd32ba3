use yfelo::token::{tokenize, Token};
use yfelo::MetaSyntax;

const META: MetaSyntax = MetaSyntax { left: "{", right: "}" };

#[test]
pub fn tokenize_1() {
    let tokens = tokenize("(Hello) {world}!", &META).unwrap();
    assert_eq!(tokens.len(), 3);
    assert_eq!(tokens[0], Token::Text("(Hello) ".into()));
    assert_eq!(tokens[1], Token::Tag("world".into(), (9, 14)));
    assert_eq!(tokens[2], Token::Text("!".into()));
}

#[test]
pub fn tokenize_2() {
    let tokens = tokenize("{world}", &META).unwrap();
    assert_eq!(tokens.len(), 1);
    assert_eq!(tokens[0], Token::Tag("world".into(), (1, 6)));
}

#[test]
pub fn tokenize_3() {
    let tokens = tokenize("{w(o[r])ld}", &META).unwrap();
    assert_eq!(tokens.len(), 1);
    assert_eq!(tokens[0], Token::Tag("w(o[r])ld".into(), (1, 10)));
}

#[test]
pub fn tokenize_4() {
    let tokens = tokenize("{w{o}r{l}d}", &META).unwrap();
    assert_eq!(tokens.len(), 1);
    assert_eq!(tokens[0], Token::Tag("w{o}r{l}d".into(), (1, 10)));
}

#[test]
pub fn unterminated_tag_1() {
    let err = tokenize("{Hello} {world", &META).unwrap_err();
    assert_eq!(err.message, "unterminated tag syntax".as_bytes());
    assert_eq!(err.range, (8, 9));
}

#[test]
pub fn unterminated_tag_2() {
    let err = tokenize("{Hel(lo}", &META).unwrap_err();
    assert_eq!(err.message, "unterminated tag syntax".as_bytes());
    assert_eq!(err.range, (7, 8));
}

#[test]
pub fn unterminated_tag_3() {
    let err = tokenize("{Hel)lo}", &META).unwrap_err();
    assert_eq!(err.message, "unterminated tag syntax".as_bytes());
    assert_eq!(err.range, (4, 5));
}

#[test]
pub fn unterminated_tag_4() {
    let err = tokenize("{H(e[l)l]o}", &META).unwrap_err();
    assert_eq!(err.message, "unterminated tag syntax".as_bytes());
    assert_eq!(err.range, (6, 7));
}

#[test]
pub fn tokenize_string_hides_brackets() {
    let tokens = tokenize("a{f(')')}b", &META).unwrap();
    assert_eq!(
        tokens,
        vec![
            Token::Text("a".into()),
            Token::Tag("f(')')".into(), (2, 8)),
            Token::Text("b".into()),
        ]
    );
}

#[test]
pub fn tokenize_empty_left_delimiter() {
    let meta = MetaSyntax { left: "", right: "}" };
    let err = tokenize("abc", &meta).unwrap_err();
    assert_eq!(err.message, "empty delimiter".as_bytes());
    assert_eq!(err.range, (0, 0));
}
