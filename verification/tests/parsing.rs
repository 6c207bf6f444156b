use qbar::expr::{Expr, VecExpr};
use qbar::parse::{
    parse, parse_atom_without_leading_whitespace, parse_classified, parse_group, parse_quoted_atom,
    Error, ParsedExpression, SymbolType,
};

fn classify(c: &char) -> SymbolType {
    match c {
        '(' => SymbolType::GroupOpen,
        ')' => SymbolType::GroupClose,
        '"' => SymbolType::Quote,
        c if c.is_whitespace() => SymbolType::Whitespace,
        _ => SymbolType::Other,
    }
}

fn run(s: &str) -> Result<VecExpr<Vec<char>>, Error> {
    let items: Vec<char> = s.chars().collect();
    parse(classify, &items)
}

fn atom(s: &str) -> VecExpr<Vec<char>> {
    VecExpr::Atom(s.chars().collect())
}

fn group(v: Vec<VecExpr<Vec<char>>>) -> VecExpr<Vec<char>> {
    VecExpr::Group(v)
}

#[test]
fn empty_input_is_empty_atom() {
    assert_eq!(run(""), Ok(atom("")));
    assert_eq!(run("   \t\n"), Ok(atom("")));
}

#[test]
fn single_atom() {
    assert_eq!(run("abc"), Ok(atom("abc")));
    assert_eq!(run("  abc  "), Ok(atom("abc")));
}

#[test]
fn simple_group() {
    assert_eq!(run("(a b)"), Ok(group(vec![atom("a"), atom("b")])));
    assert_eq!(run("()"), Ok(group(vec![])));
    assert_eq!(run("  ( a  b )  "), Ok(group(vec![atom("a"), atom("b")])));
}

#[test]
fn nested_groups() {
    assert_eq!(
        run("(a (b c) (d (e)) f)"),
        Ok(group(vec![
            atom("a"),
            group(vec![atom("b"), atom("c")]),
            group(vec![atom("d"), group(vec![atom("e")])]),
            atom("f"),
        ]))
    );
    assert_eq!(run("((x))"), Ok(group(vec![group(vec![atom("x")])])));
}

#[test]
fn atoms_end_at_delimiters() {
    assert_eq!(run("(a(b)c)"), Ok(group(vec![atom("a"), group(vec![atom("b")]), atom("c")])));
}

#[test]
fn quoted_atoms_keep_their_quotes() {
    assert_eq!(run("\"a b\""), Ok(atom("\"a b\"")));
    assert_eq!(run("x\"( )\"y"), Ok(atom("x\"( )\"y")));
    assert_eq!(run("(\"a)\" b)"), Ok(group(vec![atom("\"a)\""), atom("b")])));
}

#[test]
fn multiple_expressions_are_refused() {
    assert_eq!(run("a b"), Err(Error::MultiExpr));
    assert_eq!(run("a(b)"), Err(Error::MultiExpr));
    assert_eq!(run("a)"), Err(Error::MultiExpr));
    assert_eq!(run("(a) b"), Err(Error::MultiExpr));
    assert_eq!(run("(a)(b)"), Err(Error::MultiExpr));
}

#[test]
fn missing_quote() {
    assert_eq!(run("\"abc"), Err(Error::MissingQuote));
    assert_eq!(run("(a \"b)"), Err(Error::MissingQuote));
    assert_eq!(run("ab\"c"), Err(Error::MissingQuote));
}

#[test]
fn open_group() {
    assert_eq!(run("(a"), Err(Error::OpenGroup));
    assert_eq!(run("((a)"), Err(Error::OpenGroup));
    assert_eq!(run("("), Err(Error::OpenGroup));
}

#[test]
fn unopened_group() {
    assert_eq!(run(")"), Err(Error::UnopenedGroup));
    assert_eq!(run("  )a"), Err(Error::UnopenedGroup));
}

#[test]
fn trait_parse_agrees() {
    let items: Vec<char> = "(x y)".chars().collect();
    let e = <VecExpr<Vec<char>> as ParsedExpression<char>>::parse(classify, &items);
    assert_eq!(e, Ok(group(vec![atom("x"), atom("y")])));
}

#[test]
fn classified_parse_and_group() {
    let items = vec![1u8, 2, 3, 4];
    let kinds = vec![
        SymbolType::GroupOpen,
        SymbolType::Other,
        SymbolType::Other,
        SymbolType::GroupClose,
    ];
    assert_eq!(
        parse_classified(&kinds, &items),
        Ok(VecExpr::Group(vec![VecExpr::Atom(vec![2, 3])]))
    );
    assert_eq!(parse_group(&kinds, &items, 1), Ok(VecExpr::Group(vec![VecExpr::Atom(vec![2, 3])])));
}

#[test]
fn quoted_stretch() {
    let items: Vec<char> = "\"ab\"c".chars().collect();
    let kinds: Vec<SymbolType> = items.iter().map(classify).collect();
    let mut atom = Vec::new();
    assert_eq!(parse_quoted_atom(&kinds, &items, 0, &mut atom), (true, 4));
    assert_eq!(atom, vec!['"', 'a', 'b', '"']);
    let mut atom = Vec::new();
    assert_eq!(parse_quoted_atom(&kinds, &items, 3, &mut atom), (false, 5));
    assert_eq!(atom, vec!['"', 'c']);
}

#[test]
fn symbol_type_whitespace() {
    assert!(SymbolType::Whitespace.is_whitespace());
    assert!(!SymbolType::Other.is_whitespace());
    assert!(SymbolType::Quote.is_not_whitespace());
}

#[test]
fn expression_conversions() {
    let a: VecExpr<u8> = VecExpr::from_atom(7);
    assert_eq!(a, VecExpr::Atom(7));
    assert_eq!(VecExpr::<u8>::from_group(vec![]), VecExpr::Group(vec![]));
    match VecExpr::from_group(vec![VecExpr::Atom(1u8)]).into_expr() {
        Expr::Group(g) => assert_eq!(g, vec![VecExpr::Atom(1u8)]),
        Expr::Atom(_) => panic!("expected a group"),
    }
    match a.into_expr() {
        Expr::Atom(x) => assert_eq!(x, 7),
        Expr::Group(_) => panic!("expected an atom"),
    }
}

#[test]
fn atom_from_head() {
    let items: Vec<char> = "a\"b c\"d e".chars().collect();
    let kinds: Vec<SymbolType> = items.iter().map(classify).collect();
    assert_eq!(
        parse_atom_without_leading_whitespace(&kinds, &items, 0),
        Ok((atom("a\"b c\"d"), 7))
    );
    // A head that would end an atom is still taken as its first symbol.
    let items: Vec<char> = ")x y".chars().collect();
    let kinds: Vec<SymbolType> = items.iter().map(classify).collect();
    assert_eq!(parse_atom_without_leading_whitespace(&kinds, &items, 0), Ok((atom(")x"), 2)));
    let items: Vec<char> = "\"ab".chars().collect();
    let kinds: Vec<SymbolType> = items.iter().map(classify).collect();
    assert_eq!(parse_atom_without_leading_whitespace(&kinds, &items, 0), Err(Error::MissingQuote));
}
