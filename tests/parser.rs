use lambda_calculus::parser::{parse, Notation, ParseError, ParseErrorKind};
use lambda_calculus::combinators::{i, y};
use lambda_calculus::reduction::normalize;
use lambda_calculus::term::{abs, app, Term};

#[test]
fn classic_and_de_bruijn_agree() {
    let expected = abs(abs(Term::Var(2)));
    assert_eq!(parse("λx.λy.x", Notation::Classic), Ok(expected.clone()));
    assert_eq!(parse("λλ2", Notation::DeBruijn), Ok(expected.clone()));
    assert_eq!(parse("\\x y. x", Notation::Classic), Ok(expected.clone()));
    assert_eq!(parse("λ.λ.2", Notation::DeBruijn), Ok(expected));
}

#[test]
fn free_names_keep_one_slot() {
    assert_eq!(
        parse("λx.y x", Notation::Classic),
        Ok(abs(app(Term::Var(2), Term::Var(1))))
    );
    assert_eq!(
        parse("λx.y y x", Notation::Classic),
        Ok(abs(app(app(Term::Var(2), Term::Var(2)), Term::Var(1))))
    );
    assert_eq!(
        parse("y (λx.y) z", Notation::Classic),
        Ok(app(app(Term::Var(1), abs(Term::Var(2))), Term::Var(2)))
    );
}

#[test]
fn application_is_left_associative() {
    assert_eq!(
        parse("1 2 3", Notation::DeBruijn),
        Ok(app(app(Term::Var(1), Term::Var(2)), Term::Var(3)))
    );
    assert_eq!(
        parse("1 (2 3)", Notation::DeBruijn),
        Ok(app(Term::Var(1), app(Term::Var(2), Term::Var(3))))
    );
    assert_eq!(
        normalize(parse("(λx.x) (λy.y)", Notation::Classic).unwrap()),
        abs(Term::Var(1))
    );
}

#[test]
fn unbalanced_parenthesis_is_an_error() {
    assert_eq!(
        parse("λx.(x", Notation::Classic),
        Err(ParseError { reason: ParseErrorKind::UnmatchedParen, position: 5 })
    );
    assert_eq!(
        parse("1)", Notation::DeBruijn),
        Err(ParseError { reason: ParseErrorKind::UnmatchedParen, position: 1 })
    );
}

#[test]
fn other_parse_errors() {
    assert_eq!(parse("", Notation::Classic).unwrap_err().reason, ParseErrorKind::MissingTerm);
    assert_eq!(parse("λx.", Notation::Classic).unwrap_err().reason, ParseErrorKind::MissingTerm);
    assert_eq!(parse("λ.x", Notation::Classic).unwrap_err().reason, ParseErrorKind::MissingDot);
    assert_eq!(parse("λ0", Notation::DeBruijn).unwrap_err().reason, ParseErrorKind::InvalidIndex);
    assert_eq!(
        parse("99999999999999999999999", Notation::DeBruijn).unwrap_err().reason,
        ParseErrorKind::InvalidIndex
    );
    assert_eq!(
        parse("x + y", Notation::Classic),
        Err(ParseError { reason: ParseErrorKind::UnexpectedChar, position: 2 })
    );
    assert_eq!(parse("λx", Notation::DeBruijn).unwrap_err().reason, ParseErrorKind::UnexpectedChar);
}

#[test]
fn fixed_point_combinator_in_both_notations() {
    assert_eq!(parse("λg.(λx.g (x x)) (λx.g (x x))", Notation::Classic), Ok(y()));
    assert_eq!(parse("λ (λ 2 (1 1)) (λ 2 (1 1))", Notation::DeBruijn), Ok(y()));
    assert_eq!(
        parse("λg.(λx.g (x x)) (λx.g (x x)", Notation::Classic).unwrap_err().reason,
        ParseErrorKind::UnmatchedParen
    );
}

#[test]
fn balanced_parenthesis_and_free_slots_under_binders() {
    assert_eq!(parse("λx.(x)", Notation::Classic), Ok(i()));
    assert_eq!(
        parse("λz.z y (λw.y)", Notation::Classic),
        Ok(abs(app(app(Term::Var(1), Term::Var(2)), abs(Term::Var(3)))))
    );
}
