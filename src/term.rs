//! Lambda terms and their structural helpers.
use vstd::prelude::*;

verus! {

/// A lambda term with de Bruijn indices: `Var(1)` is bound by the nearest abstraction.
#[derive(Debug)]
pub enum Term {
    /// A variable, given by its de Bruijn index.
    Var(usize),
    /// An abstraction with its body.
    Abs(Box<Term>),
    /// An application of a function to an argument.
    App(Box<Term>, Box<Term>),
}

/// Ways in which a term can fail to have the shape an operation expects.
#[derive(Debug, PartialEq, Eq, Structural, Clone, Copy)]
pub enum Error {
    /// The term is not an abstraction.
    NotAbs,
    /// The term is not an application.
    NotApp,
    /// The term is not a Church pair.
    NotAPair,
}

/// The largest number of nested abstractions on any path of the term.
pub open spec fn depth(t: Term) -> nat
    decreases t,
{
    match t {
        Term::Var(_) => 0,
        Term::Abs(b) => depth(*b) + 1,
        Term::App(f, a) => if depth(*f) >= depth(*a) { depth(*f) } else { depth(*a) },
    }
}

/// The largest variable index that occurs in the term (0 when none occurs).
pub open spec fn max_var(t: Term) -> nat
    decreases t,
{
    match t {
        Term::Var(i) => i as nat,
        Term::Abs(b) => max_var(*b),
        Term::App(f, a) => if max_var(*f) >= max_var(*a) { max_var(*f) } else { max_var(*a) },
    }
}

impl PartialEq for Term {
    /// Strict structural equality of the two trees.
    fn eq(&self, other: &Term) -> (r: bool)
        ensures
            r == (*self == *other),
        decreases self,
    {
        match (self, other) {
            (Term::Var(i), Term::Var(j)) => *i == *j,
            (Term::Abs(b), Term::Abs(c)) => (**b).eq(&**c),
            (Term::App(f, a), Term::App(g, c)) => (**f).eq(&**g) && (**a).eq(&**c),
            _ => false,
        }
    }
}

impl vstd::std_specs::cmp::PartialEqSpecImpl for Term {
    open spec fn obeys_eq_spec() -> bool {
        true
    }

    open spec fn eq_spec(&self, other: &Term) -> bool {
        *self == *other
    }
}

impl Eq for Term {
}

impl Clone for Term {
    /// A deep copy of the term.
    fn clone(&self) -> (r: Term)
        ensures
            r == *self,
        decreases self,
    {
        match self {
            Term::Var(i) => Term::Var(*i),
            Term::Abs(b) => Term::Abs(Box::new((**b).clone())),
            Term::App(f, a) => Term::App(Box::new((**f).clone()), Box::new((**a).clone())),
        }
    }
}

/// Wraps a term in an abstraction.
pub fn abs(term: Term) -> (r: Term)
    ensures
        r == Term::Abs(Box::new(term)),
{
    Term::Abs(Box::new(term))
}

/// Applies `lhs` to `rhs`.
pub fn app(lhs: Term, rhs: Term) -> (r: Term)
    ensures
        r == Term::App(Box::new(lhs), Box::new(rhs)),
{
    Term::App(Box::new(lhs), Box::new(rhs))
}

/// A variable with the given de Bruijn index.
pub fn variable(index: usize) -> (r: Term)
    ensures
        r == Term::Var(index),
{
    Term::Var(index)
}

impl Term {
    /// Applies `self` to `argument`; chains build applications to the left.
    pub fn app(self, argument: Term) -> (r: Term)
        ensures
            r == Term::App(Box::new(self), Box::new(argument)),
    {
        Term::App(Box::new(self), Box::new(argument))
    }

    /// The body of an abstraction, consuming `self`.
    pub fn unabs(self) -> (r: Result<Term, Error>)
        ensures
            match self {
                Term::Abs(b) => r == Ok::<Term, Error>(*b),
                _ => r == Err::<Term, Error>(Error::NotAbs),
            },
    {
        match self {
            Term::Abs(b) => Ok(*b),
            _ => Err(Error::NotAbs),
        }
    }

    /// A reference to the body of an abstraction.
    pub fn unabs_ref(&self) -> (r: Result<&Term, Error>)
        ensures
            match *self {
                Term::Abs(b) => r == Ok::<&Term, Error>(&*b),
                _ => r == Err::<&Term, Error>(Error::NotAbs),
            },
    {
        match self {
            Term::Abs(b) => Ok(&**b),
            _ => Err(Error::NotAbs),
        }
    }

    /// The function and the argument of an application, consuming `self`.
    pub fn unapp(self) -> (r: Result<(Term, Term), Error>)
        ensures
            match self {
                Term::App(f, a) => r == Ok::<(Term, Term), Error>((*f, *a)),
                _ => r == Err::<(Term, Term), Error>(Error::NotApp),
            },
    {
        match self {
            Term::App(f, a) => Ok((*f, *a)),
            _ => Err(Error::NotApp),
        }
    }

    /// References to the function and the argument of an application.
    pub fn unapp_ref(&self) -> (r: Result<(&Term, &Term), Error>)
        ensures
            match *self {
                Term::App(f, a) => r == Ok::<(&Term, &Term), Error>((&*f, &*a)),
                _ => r == Err::<(&Term, &Term), Error>(Error::NotApp),
            },
    {
        match self {
            Term::App(f, a) => Ok((&**f, &**a)),
            _ => Err(Error::NotApp),
        }
    }

    /// The argument of an application, consuming `self`.
    pub fn rhs(self) -> (r: Result<Term, Error>)
        ensures
            match self {
                Term::App(_, a) => r == Ok::<Term, Error>(*a),
                _ => r == Err::<Term, Error>(Error::NotApp),
            },
    {
        match self {
            Term::App(_, a) => Ok(*a),
            _ => Err(Error::NotApp),
        }
    }

    /// A reference to the argument of an application.
    pub fn rhs_ref(&self) -> (r: Result<&Term, Error>)
        ensures
            match *self {
                Term::App(_, a) => r == Ok::<&Term, Error>(&*a),
                _ => r == Err::<&Term, Error>(Error::NotApp),
            },
    {
        match self {
            Term::App(_, a) => Ok(&**a),
            _ => Err(Error::NotApp),
        }
    }

    /// The function side of an application, consuming `self`.
    pub fn lhs(self) -> (r: Result<Term, Error>)
        ensures
            match self {
                Term::App(f, _) => r == Ok::<Term, Error>(*f),
                _ => r == Err::<Term, Error>(Error::NotApp),
            },
    {
        match self {
            Term::App(f, _) => Ok(*f),
            _ => Err(Error::NotApp),
        }
    }

    /// A mutable reference to the body of an abstraction; on an error `self` is left as it was.
    pub fn unabs_mut(&mut self) -> (r: Result<&mut Term, Error>)
        ensures
            match *old(self) {
                Term::Abs(b) => r.is_ok() && *r.unwrap() == *b
                    && *final(self) == Term::Abs(Box::new(*final(r.unwrap()))),
                _ => r == Err::<&mut Term, Error>(Error::NotAbs) && *final(self) == *old(self),
            },
    {
        if !matches!(self, Term::Abs(_)) {
            return Err(Error::NotAbs);
        }
        match self {
            Term::Abs(b) => Ok(&mut **b),
            _ => Err(Error::NotAbs),
        }
    }

    /// Mutable references to the function and the argument of an application; on an error
    /// `self` is left as it was.
    pub fn unapp_mut(&mut self) -> (r: Result<(&mut Term, &mut Term), Error>)
        ensures
            match *old(self) {
                Term::App(f, a) => r.is_ok() && *r.unwrap().0 == *f && *r.unwrap().1 == *a
                    && *final(self) == Term::App(Box::new(*final(r.unwrap().0)), Box::new(*final(r.unwrap().1))),
                _ => r == Err::<(&mut Term, &mut Term), Error>(Error::NotApp) && *final(self) == *old(self),
            },
    {
        if !matches!(self, Term::App(_, _)) {
            return Err(Error::NotApp);
        }
        match self {
            Term::App(f, a) => Ok((&mut **f, &mut **a)),
            _ => Err(Error::NotApp),
        }
    }

    /// A reference to the function side of an application.
    pub fn lhs_ref(&self) -> (r: Result<&Term, Error>)
        ensures
            match *self {
                Term::App(f, _) => r == Ok::<&Term, Error>(&*f),
                _ => r == Err::<&Term, Error>(Error::NotApp),
            },
    {
        match self {
            Term::App(f, _) => Ok(&**f),
            _ => Err(Error::NotApp),
        }
    }

    /// A mutable reference to the function side of an application; on an error `self` is
    /// left as it was.
    pub fn lhs_mut(&mut self) -> (r: Result<&mut Term, Error>)
        ensures
            match *old(self) {
                Term::App(f, a) => r.is_ok() && *r.unwrap() == *f
                    && *final(self) == Term::App(Box::new(*final(r.unwrap())), a),
                _ => r == Err::<&mut Term, Error>(Error::NotApp) && *final(self) == *old(self),
            },
    {
        if !matches!(self, Term::App(_, _)) {
            return Err(Error::NotApp);
        }
        match self {
            Term::App(f, _) => Ok(&mut **f),
            _ => Err(Error::NotApp),
        }
    }

    /// A mutable reference to the argument of an application; on an error `self` is left
    /// as it was.
    pub fn rhs_mut(&mut self) -> (r: Result<&mut Term, Error>)
        ensures
            match *old(self) {
                Term::App(f, a) => r.is_ok() && *r.unwrap() == *a
                    && *final(self) == Term::App(f, Box::new(*final(r.unwrap()))),
                _ => r == Err::<&mut Term, Error>(Error::NotApp) && *final(self) == *old(self),
            },
    {
        if !matches!(self, Term::App(_, _)) {
            return Err(Error::NotApp);
        }
        match self {
            Term::App(_, a) => Ok(&mut **a),
            _ => Err(Error::NotApp),
        }
    }
}

} // verus!
