use parser_combinators::char;
use parser_combinators::digit;
use parser_combinators::primitives::CharLit;
use parser_combinators::satisfy;
use parser_combinators::Parser;

#[test]
fn single_char() {
    let c_parser = char('c').into_string();
    assert_eq!(c_parser.parse(&['c']).unwrap(), ("c".to_string(), 1))
}

#[test]
fn single_digit() {
    let digit_parser = digit().into_string();
    assert_eq!(digit_parser.parse(&['1']).unwrap(), ("1".to_string(), 1))
}

#[test]
fn or() {
    let c_parser = char('c');
    let digit_parser = digit();
    let c_or_digit_parser = c_parser.or(digit_parser).into_string();
    assert_eq!(c_or_digit_parser.parse(&['c']), Some(("c".to_string(), 1)));
    assert_eq!(c_or_digit_parser.parse(&['1']), Some(("1".to_string(), 1)));
    assert_eq!(c_or_digit_parser.parse(&['a']), None);
}

#[test]
fn and() {
    let c_parser = char('c');
    let d_parser = char('d');
    let c_and_d_parser = c_parser.and(d_parser).into_string();
    assert_eq!(
        c_and_d_parser.parse(&['c', 'd']),
        Some(("cd".to_string(), 2))
    );
    assert_eq!(c_and_d_parser.parse(&['c']), None);
    assert_eq!(c_and_d_parser.parse(&['c', 'c']), None);
    assert_eq!(
        c_and_d_parser.parse(&['c', 'd', 'c']),
        Some(("cd".to_string(), 2))
    );
    assert_eq!(c_and_d_parser.parse(&['a']), None);
}

#[test]
fn then_maybe() {
    let c_parser = char('c');
    let d_parser = char('d');
    let c_and_then_maybe_d_parser = c_parser.then_maybe(d_parser).into_string();
    assert_eq!(
        c_and_then_maybe_d_parser.parse(&['c', 'd']),
        Some(("cd".to_string(), 2))
    );
    assert_eq!(
        c_and_then_maybe_d_parser.parse(&['c', 'c']),
        Some(("c".to_string(), 1))
    );
    assert_eq!(
        c_and_then_maybe_d_parser.parse(&['c', 'd', 'c']),
        Some(("cd".to_string(), 2))
    );
    assert_eq!(c_and_then_maybe_d_parser.parse(&['d', 'c']), None);
}

#[test]
fn many() {
    let many_c_parser = char('c').many().into_string();
    assert_eq!(
        many_c_parser.parse(&['c', 'c', 'c']),
        Some(("ccc".to_string(), 3))
    );
    assert_eq!(
        many_c_parser.parse(&['c', 'c', 'd']),
        Some(("cc".to_string(), 2))
    );
    assert_eq!(many_c_parser.parse(&['c', 'd']), Some(("c".to_string(), 1)));
}

#[test]
fn many1() {
    let many1_c_parser = char('c').many1().into_string();
    assert_eq!(
        many1_c_parser.parse(&['c', 'c', 'c']),
        Some(("ccc".to_string(), 3))
    );
    assert_eq!(many1_c_parser.parse(&['d']), None);
}

#[test]
fn identifier() {
    let ident_parser = satisfy(|c: char| c.is_alphabetic() || c == '_')
        .then_maybe(satisfy(|c: char| c.is_alphanumeric() || c == '_').many())
        .into_string();

    assert_eq!(
        ident_parser.parse(&['h', 'e', 'l', 'l', 'o', '_', 'w', 'o', 'r', 'l', 'd']),
        Some(("hello_world".to_string(), 11))
    );
}

#[test]
fn choice_takes_first_success() {
    let abc = Parser::choice(vec![char('a'), char('b'), char('c')]);
    assert_eq!(abc.parse(&['b', 'x']), Some(('b', 1)));
    assert_eq!(abc.parse(&['c']), Some(('c', 1)));
    assert_eq!(abc.parse(&['z']), None);
}

#[test]
fn choice_of_nothing_fails() {
    let none = Parser::choice(Vec::<Parser<CharLit>>::new());
    let empty: Option<(char, usize)> = none.parse(&['a']);
    assert_eq!(empty, None);
}
