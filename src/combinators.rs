//! Standard terms and combinators.
use vstd::prelude::*;
use crate::term::{Term, abs, app};

verus! {

/// The identity combinator I := λx.x = λ 1.
pub fn i() -> (r: Term)
    ensures
        r == Term::Abs(Box::new(Term::Var(1))),
{
    abs(Term::Var(1))
}

/// The constant combinator K := λxy.x = λ λ 2.
pub fn k() -> (r: Term)
    ensures
        r == Term::Abs(Box::new(Term::Abs(Box::new(Term::Var(2))))),
{
    abs(abs(Term::Var(2)))
}

/// The body of S: 3 1 (2 1).
pub open spec fn s_body() -> Term {
    Term::App(
        Box::new(Term::App(Box::new(Term::Var(3)), Box::new(Term::Var(1)))),
        Box::new(Term::App(Box::new(Term::Var(2)), Box::new(Term::Var(1)))),
    )
}

/// The term λ λ λ `body`.
pub open spec fn abs3(body: Term) -> Term {
    Term::Abs(Box::new(Term::Abs(Box::new(Term::Abs(Box::new(body))))))
}

/// The substitution combinator S := λxyz.x z (y z) = λ λ λ 3 1 (2 1).
pub fn s() -> (r: Term)
    ensures
        r == abs3(s_body()),
{
    abs(abs(abs(Term::Var(3).app(Term::Var(1)).app(Term::Var(2).app(Term::Var(1))))))
}

/// The universal combinator ι := λx.x S K = λ 1 S K.
pub fn iota() -> (r: Term)
    ensures
        r == Term::Abs(Box::new(Term::App(
            Box::new(Term::App(Box::new(Term::Var(1)), Box::new(abs3(s_body())))),
            Box::new(Term::Abs(Box::new(Term::Abs(Box::new(Term::Var(2)))))),
        ))),
{
    abs(Term::Var(1).app(s()).app(k()))
}

/// The composition combinator B := λxyz.x (y z) = λ λ λ 3 (2 1).
pub fn b() -> (r: Term)
    ensures
        r == abs3(Term::App(
            Box::new(Term::Var(3)),
            Box::new(Term::App(Box::new(Term::Var(2)), Box::new(Term::Var(1)))),
        )),
{
    abs(abs(abs(Term::Var(3).app(Term::Var(2).app(Term::Var(1))))))
}

/// The swapping combinator C := λxyz.x z y = λ λ λ 3 1 2.
pub fn c() -> (r: Term)
    ensures
        r == abs3(Term::App(
            Box::new(Term::App(Box::new(Term::Var(3)), Box::new(Term::Var(1)))),
            Box::new(Term::Var(2)),
        )),
{
    abs(abs(abs(Term::Var(3).app(Term::Var(1)).app(Term::Var(2)))))
}

/// The duplicating combinator W := λxy.x y y = λ λ 2 1 1.
pub fn w() -> (r: Term)
    ensures
        r == Term::Abs(Box::new(Term::Abs(Box::new(Term::App(
            Box::new(Term::App(Box::new(Term::Var(2)), Box::new(Term::Var(1)))),
            Box::new(Term::Var(1)),
        ))))),
{
    abs(abs(Term::Var(2).app(Term::Var(1)).app(Term::Var(1))))
}

/// The self application λ 1 1.
pub open spec fn om_spec() -> Term {
    Term::Abs(Box::new(Term::App(Box::new(Term::Var(1)), Box::new(Term::Var(1)))))
}

/// The looping combinator ω := λx.x x = λ 1 1.
pub fn om() -> (r: Term)
    ensures
        r == om_spec(),
{
    abs(Term::Var(1).app(Term::Var(1)))
}

/// The divergent combinator Ω := ω ω.
pub fn omm() -> (r: Term)
    ensures
        r == Term::App(Box::new(om_spec()), Box::new(om_spec())),
{
    om().app(om())
}

/// The half of Y: λ 2 (1 1).
pub open spec fn y_half() -> Term {
    Term::Abs(Box::new(Term::App(
        Box::new(Term::Var(2)),
        Box::new(Term::App(Box::new(Term::Var(1)), Box::new(Term::Var(1)))),
    )))
}

/// The fixed-point combinator Y := λg.(λx.g (x x)) (λx.g (x x)) = λ (λ 2 (1 1)) (λ 2 (1 1)).
pub fn y() -> (r: Term)
    ensures
        r == Term::Abs(Box::new(Term::App(Box::new(y_half()), Box::new(y_half())))),
{
    abs(app(
        abs(Term::Var(2).app(Term::Var(1).app(Term::Var(1)))),
        abs(Term::Var(2).app(Term::Var(1).app(Term::Var(1)))),
    ))
}

} // verus!
