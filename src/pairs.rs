//! Church pairs: PAIR a b := λz.z a b.
use vstd::prelude::*;
use crate::term::{Term, Error, abs, app};

verus! {

/// The Church boolean TRUE := λ λ 2.
pub open spec fn tru_spec() -> Term {
    Term::Abs(Box::new(Term::Abs(Box::new(Term::Var(2)))))
}

/// The Church boolean FALSE := λ λ 1.
pub open spec fn fls_spec() -> Term {
    Term::Abs(Box::new(Term::Abs(Box::new(Term::Var(1)))))
}

/// The Church boolean TRUE := λxy.x = λ λ 2.
pub fn tru() -> (r: Term)
    ensures
        r == tru_spec(),
{
    abs(abs(Term::Var(2)))
}

/// The Church boolean FALSE := λxy.y = λ λ 1.
pub fn fls() -> (r: Term)
    ensures
        r == fls_spec(),
{
    abs(abs(Term::Var(1)))
}

/// The application `f a`.
pub open spec fn ap(f: Term, a: Term) -> Term {
    Term::App(Box::new(f), Box::new(a))
}

/// The abstraction λ `b`.
pub open spec fn lam(b: Term) -> Term {
    Term::Abs(Box::new(b))
}

/// The term inspected for a pair: the body of an abstraction, else the term itself.
pub open spec fn pair_candidate(t: Term) -> Term {
    match t {
        Term::Abs(b) => *b,
        _ => t,
    }
}

/// The two components of a Church pair `λ 1 a b` (or of the bare `x a b`): the body of an
/// outer abstraction, else the term itself, must be `x a b`. A term `x b` whose `x` is no
/// application fails as its function side does, with `NotApp`; any other term with `NotAPair`.
pub open spec fn pair_parts(t: Term) -> Result<(Term, Term), Error> {
    match pair_candidate(t) {
        Term::App(w, b) => match *w {
            Term::App(_, a) => Ok((*a, *b)),
            _ => Err(Error::NotApp),
        },
        _ => Err(Error::NotAPair),
    }
}

/// The function side of the function side of `t`, for a term `f a b`.
pub open spec fn first_of_app(t: Term) -> Term {
    match t {
        Term::App(w, _) => match *w {
            Term::App(f, _) => *f,
            _ => t,
        },
        _ => t,
    }
}

/// The pair `t` with its components replaced by `a` and `b`.
pub open spec fn with_parts(t: Term, a: Term, b: Term) -> Term {
    match t {
        Term::Abs(_) => lam(ap(ap(first_of_app(pair_candidate(t)), a), b)),
        _ => ap(ap(first_of_app(t), a), b),
    }
}

/// Mutable references to `a` and `b` in a term `f a b`.
fn split_mut(t: &mut Term) -> (r: Result<(&mut Term, &mut Term), Error>)
    ensures
        match *old(t) {
            Term::App(w, b) => match *w {
                Term::App(f, a) => r.is_ok() && *r.unwrap().0 == *a && *r.unwrap().1 == *b
                    && *final(t) == ap(ap(*f, *final(r.unwrap().0)), *final(r.unwrap().1)),
                _ => r == Err::<(&mut Term, &mut Term), Error>(Error::NotApp),
            },
            _ => r == Err::<(&mut Term, &mut Term), Error>(Error::NotAPair),
        },
{
    match t {
        Term::App(w, b) => match &mut **w {
            Term::App(_, a) => Ok((&mut **a, &mut **b)),
            _ => Err(Error::NotApp),
        },
        _ => Err(Error::NotAPair),
    }
}

/// PAIR := λxyz.z x y = λ λ λ 1 3 2.
pub fn pair() -> (r: Term)
    ensures
        r == lam(lam(lam(ap(ap(Term::Var(1), Term::Var(3)), Term::Var(2))))),
{
    abs(abs(abs(Term::Var(1).app(Term::Var(3)).app(Term::Var(2)))))
}

/// FST := λp.p TRUE = λ 1 TRUE; applied to a pair `(a, b)` it yields `a`.
pub fn fst() -> (r: Term)
    ensures
        r == lam(ap(Term::Var(1), tru_spec())),
{
    abs(app(Term::Var(1), tru()))
}

/// SND := λp.p FALSE = λ 1 FALSE; applied to a pair `(a, b)` it yields `b`.
pub fn snd() -> (r: Term)
    ensures
        r == lam(ap(Term::Var(1), fls_spec())),
{
    abs(app(Term::Var(1), fls()))
}

/// UNCURRY := λf.λp.f (FST p) (SND p) = λ λ 2 (1 TRUE) (1 FALSE).
pub fn uncurry() -> (r: Term)
    ensures
        r == lam(lam(ap(
            ap(Term::Var(2), ap(Term::Var(1), tru_spec())),
            ap(Term::Var(1), fls_spec()),
        ))),
{
    abs(abs(app(
        app(Term::Var(2), app(Term::Var(1), tru())),
        app(Term::Var(1), fls()),
    )))
}

/// The pair `(t1, t2)` as the term λ 1 t1 t2.
pub fn pair_of(t1: Term, t2: Term) -> (r: Term)
    ensures
        r == lam(ap(ap(Term::Var(1), t1), t2)),
        pair_parts(r) == Ok::<(Term, Term), Error>((t1, t2)),
{
    abs(app(app(Term::Var(1), t1), t2))
}

impl Term {
    /// Whether `self` is a Church pair.
    pub fn is_pair(&self) -> (r: bool)
        ensures
            r == pair_parts(*self) is Ok,
    {
        self.unpair_ref().is_ok()
    }

    /// Splits a Church pair into its two terms, consuming `self`.
    pub fn unpair(self) -> (r: Result<(Term, Term), Error>)
        ensures
            r == pair_parts(self),
    {
        let candidate = match self {
            Term::Abs(b) => *b,
            other => other,
        };
        match candidate {
            Term::App(w, b) => match *w {
                Term::App(_, a) => Ok((*a, *b)),
                _ => Err(Error::NotApp),
            },
            _ => Err(Error::NotAPair),
        }
    }

    /// Splits a Church pair into references to its two terms.
    pub fn unpair_ref(&self) -> (r: Result<(&Term, &Term), Error>)
        ensures
            match pair_parts(*self) {
                Ok(p) => r.is_ok() && *r.unwrap().0 == p.0 && *r.unwrap().1 == p.1,
                Err(e) => r == Err::<(&Term, &Term), Error>(e),
            },
    {
        let candidate: &Term = match self {
            Term::Abs(b) => &**b,
            other => other,
        };
        match candidate {
            Term::App(w, b) => match &**w {
                Term::App(_, a) => Ok((&**a, &**b)),
                _ => Err(Error::NotApp),
            },
            _ => Err(Error::NotAPair),
        }
    }

    /// Splits a Church pair into mutable references to its two terms; on an error `self`
    /// is left as it was.
    pub fn unpair_mut(&mut self) -> (r: Result<(&mut Term, &mut Term), Error>)
        ensures
            match pair_parts(*old(self)) {
                Ok(p) => r.is_ok() && *r.unwrap().0 == p.0 && *r.unwrap().1 == p.1
                    && *final(self) == with_parts(*old(self), *final(r.unwrap().0), *final(r.unwrap().1)),
                Err(e) => r == Err::<(&mut Term, &mut Term), Error>(e) && *final(self) == *old(self),
            },
    {
        match self.unpair_ref() {
            Err(e) => {
                return Err(e);
            },
            Ok(_) => {},
        }
        let is_abs = matches!(self, Term::Abs(_));
        if is_abs {
            match self {
                Term::Abs(b) => split_mut(&mut **b),
                _ => Err(Error::NotAPair),
            }
        } else {
            split_mut(self)
        }
    }

    /// The first term of a Church pair, consuming `self`.
    pub fn fst(self) -> (r: Result<Term, Error>)
        ensures
            match pair_parts(self) {
                Ok(p) => r == Ok::<Term, Error>(p.0),
                Err(e) => r == Err::<Term, Error>(e),
            },
    {
        match self.unpair() {
            Ok(p) => Ok(p.0),
            Err(e) => Err(e),
        }
    }

    /// A reference to the first term of a Church pair.
    pub fn fst_ref(&self) -> (r: Result<&Term, Error>)
        ensures
            match pair_parts(*self) {
                Ok(p) => r.is_ok() && *r.unwrap() == p.0,
                Err(e) => r == Err::<&Term, Error>(e),
            },
    {
        match self.unpair_ref() {
            Ok(p) => Ok(p.0),
            Err(e) => Err(e),
        }
    }

    /// A mutable reference to the first term of a Church pair; on an error `self` is left
    /// as it was.
    pub fn fst_mut(&mut self) -> (r: Result<&mut Term, Error>)
        ensures
            match pair_parts(*old(self)) {
                Ok(p) => r.is_ok() && *r.unwrap() == p.0
                    && *final(self) == with_parts(*old(self), *final(r.unwrap()), p.1),
                Err(e) => r == Err::<&mut Term, Error>(e) && *final(self) == *old(self),
            },
    {
        match self.unpair_mut() {
            Ok(p) => Ok(p.0),
            Err(e) => Err(e),
        }
    }

    /// A mutable reference to the second term of a Church pair; on an error `self` is left
    /// as it was.
    pub fn snd_mut(&mut self) -> (r: Result<&mut Term, Error>)
        ensures
            match pair_parts(*old(self)) {
                Ok(p) => r.is_ok() && *r.unwrap() == p.1
                    && *final(self) == with_parts(*old(self), p.0, *final(r.unwrap())),
                Err(e) => r == Err::<&mut Term, Error>(e) && *final(self) == *old(self),
            },
    {
        match self.unpair_mut() {
            Ok(p) => Ok(p.1),
            Err(e) => Err(e),
        }
    }

    /// The second term of a Church pair, consuming `self`.
    pub fn snd(self) -> (r: Result<Term, Error>)
        ensures
            match pair_parts(self) {
                Ok(p) => r == Ok::<Term, Error>(p.1),
                Err(e) => r == Err::<Term, Error>(e),
            },
    {
        match self.unpair() {
            Ok(p) => Ok(p.1),
            Err(e) => Err(e),
        }
    }

    /// A reference to the second term of a Church pair.
    pub fn snd_ref(&self) -> (r: Result<&Term, Error>)
        ensures
            match pair_parts(*self) {
                Ok(p) => r.is_ok() && *r.unwrap() == p.1,
                Err(e) => r == Err::<&Term, Error>(e),
            },
    {
        match self.unpair_ref() {
            Ok(p) => Ok(p.1),
            Err(e) => Err(e),
        }
    }
}

impl From<(Term, Term)> for Term {
    /// The pair `(t1, t2)` as the term λ 1 t1 t2.
    fn from(p: (Term, Term)) -> (r: Term) {
        abs(app(app(Term::Var(1), p.0), p.1))
    }
}

impl vstd::std_specs::convert::FromSpecImpl<(Term, Term)> for Term {
    open spec fn obeys_from_spec() -> bool {
        true
    }

    open spec fn from_spec(p: (Term, Term)) -> Term {
        lam(ap(ap(Term::Var(1), p.0), p.1))
    }
}

} // verus!
