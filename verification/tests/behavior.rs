use parser_combinators::any;
use parser_combinators::char;
use parser_combinators::digit;
use parser_combinators::satisfy;
use parser_combinators::CollectChars;

#[test]
fn parse_is_deterministic() {
    let p = char('c').and(digit()).into_string();
    let input = ['c', '7', 'x'];
    let first = p.parse(&input);
    let second = p.parse(&input);
    assert_eq!(first, second);
    assert_eq!(first, Some(("c7".to_string(), 2)));
}

#[test]
fn failure_consumes_nothing() {
    let input = ['d'];
    assert_eq!(char('c').parse(&input), None);
    // The input is untouched by the failed attempt: another parser matches
    // it from the very start.
    assert_eq!(char('d').parse(&input), Some(('d', 1)));
}

#[test]
fn or_is_left_biased() {
    // Both alternatives match, with different outputs: the left one wins.
    let p = char('c').map(|_| 'L').or(char('c').map(|_| 'R'));
    assert_eq!(p.parse(&['c']), Some(('L', 1)));
}

#[test]
fn maybe_never_fails() {
    let p = char('c').maybe();
    assert_eq!(p.parse(&['c', 'x']), Some((Some('c'), 1)));
    assert_eq!(p.parse(&['d']), Some((None, 0)));
    assert_eq!(p.parse(&[]), Some((None, 0)));
}

#[test]
fn maybe_maybe_never_nests_failure() {
    let p = char('c').maybe().maybe();
    assert_eq!(p.parse(&['c']), Some((Some(Some('c')), 1)));
    assert_eq!(p.parse(&['d']), Some((Some(None), 0)));
}

#[test]
fn many_never_fails() {
    let p = char('c').many();
    assert_eq!(p.parse(&[]), Some((Vec::new(), 0)));
    assert_eq!(p.parse(&['d']), Some((Vec::new(), 0)));
    assert_eq!(p.parse(&['c', 'c', 'd']), Some((vec!['c', 'c'], 2)));
}

#[test]
fn many1_matches_many_on_nonempty() {
    let many = char('c').many();
    let many1 = char('c').many1();
    let input = ['c', 'c', 'd'];
    let (elems, rest) = many.parse(&input).unwrap();
    let (elems1, rest1) = many1.parse(&input).unwrap();
    assert_eq!(elems1, Some(elems));
    assert_eq!(rest1, rest);
}

#[test]
fn empty_input_fails_primitives() {
    assert_eq!(char('c').parse(&[]), None);
    assert_eq!(digit().parse(&[]), None);
    assert_eq!(any().parse(&[]), None);
    assert_eq!(satisfy(|_c: char| true).parse(&[]), None);
}

#[test]
fn any_consumes_one_element() {
    assert_eq!(any().parse(&['x', 'y']), Some(('x', 1)));
}

#[test]
fn sequencing_reaches_the_empty_remainder() {
    // The remainder after the first parser is empty, which is a valid,
    // matchable state: a repetition matches it with zero elements.
    let p = char('c').and(char('d').many());
    assert_eq!(p.parse(&['c']), Some((('c', Vec::new()), 1)));
}

#[test]
fn then_maybe_reverts_failed_tail() {
    // The tail parser consumes 'd' and then fails, so the cursor reverts to
    // the one the head produced.
    let p = char('c').then_maybe(char('d').and(char('e')));
    assert_eq!(p.parse(&['c', 'd', 'x']), Some((('c', None), 1)));
}

#[test]
fn skip_discards_output() {
    let p = char('c').skip();
    assert_eq!(p.parse(&['c', 'd']), Some(((), 1)));
    assert_eq!(p.parse(&['d']), None);
}

#[test]
fn map_transforms_output() {
    let p = digit().map(|c| (c as u32) - ('0' as u32));
    assert_eq!(p.parse(&['7']), Some((7, 1)));
    assert_eq!(p.parse(&['x']), None);
}

#[test]
fn filter_rejects_like_no_match() {
    let p = digit().filter(|c| *c != '0');
    assert_eq!(p.parse(&['5']), Some(('5', 1)));
    assert_eq!(p.parse(&['0']), None);
}

#[test]
fn digit_bounds() {
    assert_eq!(digit().parse(&['0']), Some(('0', 1)));
    assert_eq!(digit().parse(&['9']), Some(('9', 1)));
    assert_eq!(digit().parse(&['a']), None);
    assert_eq!(digit().parse(&['/']), None);
    assert_eq!(digit().parse(&[':']), None);
}

#[test]
fn collect_chars_shapes() {
    assert_eq!('c'.into_string(), "c".to_string());
    assert_eq!(vec!['a', 'b'].into_string(), "ab".to_string());
    assert_eq!(Some('x').into_string(), "x".to_string());
    assert_eq!(None::<char>.into_string(), "".to_string());
    assert_eq!(('a', Some(vec!['b', 'c'])).into_string(), "abc".to_string());
}

#[test]
fn into_string_of_empty_repetition() {
    let p = char('c').many().into_string();
    assert_eq!(p.parse(&['d']), Some(("".to_string(), 0)));
}
