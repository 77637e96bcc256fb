//! Capture-avoiding substitution and beta reduction under four strategies.
use vstd::prelude::*;
use crate::term::{Term, depth, max_var};

verus! {

/// Which redex a reduction step contracts.
#[derive(Debug, PartialEq, Eq, Structural, Clone, Copy)]
pub enum Order {
    /// Leftmost-outermost redex first, also under abstractions and in arguments.
    NormalOrder,
    /// Head redexes only: never under an abstraction, never in an argument.
    CallByName,
    /// Leftmost-innermost: function and argument are reduced before the redex itself.
    ApplicativeOrder,
    /// The spine of applications and bodies of abstractions, never in an argument.
    HeadSpine,
}

/// Adds one to every index of `t` at or above the cutoff `c`; the cutoff grows under binders.
pub open spec fn shift_up(t: Term, c: nat) -> Term
    decreases t,
{
    match t {
        Term::Var(i) => if i >= c { Term::Var((i + 1) as usize) } else { Term::Var(i) },
        Term::Abs(b) => Term::Abs(Box::new(shift_up(*b, c + 1))),
        Term::App(f, a) => Term::App(Box::new(shift_up(*f, c)), Box::new(shift_up(*a, c))),
    }
}

/// Replaces index `idx` of `t` by `v` and closes the gap the removed binder leaves:
/// larger indices drop by one, and `v` is shifted up each time a binder is crossed.
pub open spec fn subst(t: Term, idx: nat, v: Term) -> Term
    decreases t,
{
    match t {
        Term::Var(i) => if i == idx {
            v
        } else if i > idx {
            Term::Var((i - 1) as usize)
        } else {
            Term::Var(i)
        },
        Term::Abs(b) => Term::Abs(Box::new(subst(*b, idx + 1, shift_up(v, 1)))),
        Term::App(f, a) => Term::App(Box::new(subst(*f, idx, v)), Box::new(subst(*a, idx, v))),
    }
}

/// The term that one reduction step under `order` gives, or `None` where `order` finds no redex.
pub open spec fn step(t: Term, order: Order) -> Option<Term>
    decreases t,
{
    match t {
        Term::Var(_) => None,
        Term::Abs(b) => match order {
            Order::NormalOrder | Order::ApplicativeOrder | Order::HeadSpine => match step(*b, order) {
                Some(u) => Some(Term::Abs(Box::new(u))),
                None => None,
            },
            Order::CallByName => None,
        },
        Term::App(f, a) => match order {
            Order::ApplicativeOrder => match step(*f, order) {
                Some(g) => Some(Term::App(Box::new(g), a)),
                None => match step(*a, order) {
                    Some(c) => Some(Term::App(f, Box::new(c))),
                    None => match *f {
                        Term::Abs(b) => Some(subst(*b, 1, *a)),
                        _ => None,
                    },
                },
            },
            _ => match *f {
                Term::Abs(b) => Some(subst(*b, 1, *a)),
                _ => match step(*f, order) {
                    Some(g) => Some(Term::App(Box::new(g), a)),
                    None => match order {
                        Order::NormalOrder => match step(*a, order) {
                            Some(c) => Some(Term::App(f, Box::new(c))),
                            None => None,
                        },
                        _ => None,
                    },
                },
            },
        },
    }
}

/// What `beta_step` returns: the reduct, or the term itself where no redex is found.
pub open spec fn beta_step_spec(t: Term, order: Order) -> Term {
    match step(t, order) {
        Some(u) => u,
        None => t,
    }
}

/// A step on `t` cannot overflow an index: indices plus binder depth stay below `usize::MAX`.
pub open spec fn fits(t: Term) -> bool {
    max_var(t) + depth(t) < usize::MAX
}

/// At most `n` steps under `order`, stopping early at a fixed point, or where `t` no longer fits.
pub open spec fn reduce(t: Term, order: Order, n: nat) -> Term
    decreases n,
{
    if n == 0 || !fits(t) {
        t
    } else {
        let u = beta_step_spec(t, order);
        if u == t {
            t
        } else {
            reduce(u, order, (n - 1) as nat)
        }
    }
}

/// The terms that `reduce(t, order, n)` passes through after `t`, in order.
pub open spec fn trace(t: Term, order: Order, n: nat) -> Seq<Term>
    decreases n,
{
    if n == 0 || !fits(t) {
        Seq::empty()
    } else {
        let u = beta_step_spec(t, order);
        if u == t {
            Seq::empty()
        } else {
            seq![u] + trace(u, order, (n - 1) as nat)
        }
    }
}

/// The number of steps that a limit allows: `0` stands for no limit, up to `usize::MAX` steps.
pub open spec fn allowed_steps(limit: usize) -> nat {
    if limit == 0 {
        usize::MAX as nat
    } else {
        limit as nat
    }
}

proof fn lemma_shift_up_bounds(t: Term, c: nat)
    ensures
        max_var(shift_up(t, c)) <= max_var(t) + 1,
        depth(shift_up(t, c)) == depth(t),
    decreases t,
{
    match t {
        Term::Var(_) => {},
        Term::Abs(b) => lemma_shift_up_bounds(*b, c + 1),
        Term::App(f, a) => {
            lemma_shift_up_bounds(*f, c);
            lemma_shift_up_bounds(*a, c);
        },
    }
}

/// Shifts up by one every index of `t` at or above `cutoff`.
pub fn shift(t: &Term, cutoff: usize) -> (r: Term)
    requires
        max_var(*t) < usize::MAX,
        cutoff + depth(*t) <= usize::MAX,
    ensures
        r == shift_up(*t, cutoff as nat),
    decreases t,
{
    match t {
        Term::Var(i) => if *i >= cutoff {
            Term::Var(*i + 1)
        } else {
            Term::Var(*i)
        },
        Term::Abs(b) => Term::Abs(Box::new(shift(&**b, cutoff + 1))),
        Term::App(f, a) => Term::App(Box::new(shift(&**f, cutoff)), Box::new(shift(&**a, cutoff))),
    }
}

/// Substitutes `value` for index `index` in `t`, shifting `value` under each binder it crosses.
pub fn substitute(t: &Term, index: usize, value: &Term) -> (r: Term)
    requires
        index + depth(*t) <= usize::MAX,
        max_var(*value) + depth(*t) <= usize::MAX,
        depth(*value) < usize::MAX,
    ensures
        r == subst(*t, index as nat, *value),
    decreases t,
{
    match t {
        Term::Var(i) => if *i == index {
            value.clone()
        } else if *i > index {
            Term::Var(*i - 1)
        } else {
            Term::Var(*i)
        },
        Term::Abs(b) => {
            proof {
                lemma_shift_up_bounds(*value, 1);
            }
            let shifted = shift(value, 1);
            Term::Abs(Box::new(substitute(&**b, index + 1, &shifted)))
        },
        Term::App(f, a) => Term::App(
            Box::new(substitute(&**f, index, value)),
            Box::new(substitute(&**a, index, value)),
        ),
    }
}

/// Contracts the redex `(λ body) arg`.
fn contract(body: &Term, arg: &Term) -> (r: Term)
    requires
        fits(Term::App(Box::new(Term::Abs(Box::new(*body))), Box::new(*arg))),
    ensures
        r == subst(*body, 1, *arg),
{
    assert(depth(Term::Abs(Box::new(*body))) == depth(*body) + 1);
    assert(max_var(Term::Abs(Box::new(*body))) == max_var(*body));
    substitute(body, 1, arg)
}

/// One reduction step under `order`, or `None` where `order` finds no redex in `t`.
pub fn try_step(t: &Term, order: Order) -> (r: Option<Term>)
    requires
        fits(*t),
    ensures
        r == step(*t, order),
    decreases t,
{
    match t {
        Term::Var(_) => None,
        Term::Abs(b) => match order {
            Order::CallByName => None,
            _ => match try_step(&**b, order) {
                Some(u) => Some(Term::Abs(Box::new(u))),
                None => None,
            },
        },
        Term::App(f, a) => match order {
            Order::ApplicativeOrder => match try_step(&**f, order) {
                Some(g) => Some(Term::App(Box::new(g), Box::new((**a).clone()))),
                None => match try_step(&**a, order) {
                    Some(c) => Some(Term::App(Box::new((**f).clone()), Box::new(c))),
                    None => match &**f {
                        Term::Abs(b) => Some(contract(&**b, &**a)),
                        _ => None,
                    },
                },
            },
            _ => match &**f {
                Term::Abs(b) => Some(contract(&**b, &**a)),
                _ => match try_step(&**f, order) {
                    Some(g) => Some(Term::App(Box::new(g), Box::new((**a).clone()))),
                    None => match order {
                        Order::NormalOrder => match try_step(&**a, order) {
                            Some(c) => Some(Term::App(Box::new((**f).clone()), Box::new(c))),
                            None => None,
                        },
                        _ => None,
                    },
                },
            },
        },
    }
}

/// Performs one reduction step under `order`; returns `term` unchanged where there is no redex.
pub fn beta_step(term: Term, order: Order) -> (r: Term)
    requires
        fits(term),
    ensures
        r == beta_step_spec(term, order),
{
    match try_step(&term, order) {
        Some(u) => u,
        None => term,
    }
}

/// The largest index in `t`.
fn max_index(t: &Term) -> (r: usize)
    ensures
        r as nat == max_var(*t),
    decreases t,
{
    match t {
        Term::Var(i) => *i,
        Term::Abs(b) => max_index(&**b),
        Term::App(f, a) => {
            let m = max_index(&**f);
            let n = max_index(&**a);
            if m >= n {
                m
            } else {
                n
            }
        },
    }
}

/// The binder depth of `t`, or `usize::MAX` where it is at least that.
fn capped_depth(t: &Term) -> (r: usize)
    ensures
        r as nat == if depth(*t) < usize::MAX { depth(*t) } else { usize::MAX as nat },
    decreases t,
{
    match t {
        Term::Var(_) => 0,
        Term::Abs(b) => {
            let d = capped_depth(&**b);
            if d < usize::MAX {
                d + 1
            } else {
                d
            }
        },
        Term::App(f, a) => {
            let m = capped_depth(&**f);
            let n = capped_depth(&**a);
            if m >= n {
                m
            } else {
                n
            }
        },
    }
}

/// Whether a reduction step on `t` keeps every index within `usize`.
pub fn fits_in_machine(t: &Term) -> (r: bool)
    ensures
        r == fits(*t),
{
    let m = max_index(t);
    let d = capped_depth(t);
    d < usize::MAX - m
}

/// Reduces `term` under `order` for at most `limit` steps (`0`: no limit but `usize::MAX`
/// steps), stopping at the first step that returns its input unchanged, and before a
/// step that could overflow an index. Each term reached after the first is appended to
/// `log` when `verbose` holds.
pub fn beta_logged(term: Term, order: Order, limit: usize, verbose: bool, log: &mut Vec<Term>) -> (r: Term)
    ensures
        r == reduce(term, order, allowed_steps(limit)),
        verbose ==> final(log)@ == old(log)@ + trace(term, order, allowed_steps(limit)),
        !verbose ==> final(log)@ == old(log)@,
{
    let bound: usize = if limit == 0 { usize::MAX } else { limit };
    let mut t = term;
    let mut left: usize = bound;
    while left > 0
        invariant
            reduce(t, order, left as nat) == reduce(term, order, allowed_steps(limit)),
            !verbose ==> log@ == old(log)@,
            verbose ==> log@ + trace(t, order, left as nat) == old(log)@ + trace(
                term,
                order,
                allowed_steps(limit),
            ),
        decreases left,
    {
        if !fits_in_machine(&t) {
            assert(log@ + trace(t, order, left as nat) == log@);
            return t;
        }
        let u = beta_step(t.clone(), order);
        if u == t {
            assert(log@ + trace(t, order, left as nat) == log@);
            return t;
        }
        if verbose {
            let ghost before = log@;
            log.push(u.clone());
            assert(before + trace(t, order, left as nat) == log@ + trace(u, order, (left - 1) as nat));
        }
        t = u;
        left = left - 1;
    }
    assert(log@ + trace(t, order, 0) == log@);
    t
}

/// Reduces `term` under `order` for at most `limit` steps (`0`: until a fixed point, at most
/// `usize::MAX` steps). `verbose` asks for the intermediate terms, which only
/// `beta_logged` can hand out; here they are dropped.
pub fn beta(term: Term, order: Order, limit: usize, verbose: bool) -> (r: Term)
    ensures
        r == reduce(term, order, allowed_steps(limit)),
{
    let mut log: Vec<Term> = Vec::new();
    beta_logged(term, order, limit, verbose, &mut log)
}

/// Reduces `term` in normal order until a fixed point.
pub fn normalize(term: Term) -> (r: Term)
    ensures
        r == reduce(term, Order::NormalOrder, usize::MAX as nat),
{
    beta(term, Order::NormalOrder, 0, false)
}

/// Substitution touches only occurrences of its slot: in a term shifted past index `i`
/// (so that `i` does not occur free), substituting any value for `i` restores the term,
/// whatever binders it crosses.
pub proof fn lemma_subst_after_shift(t: Term, i: nat, v: Term)
    requires
        max_var(t) < usize::MAX,
        i >= 1,
    ensures
        subst(shift_up(t, i), i, v) == t,
    decreases t,
{
    match t {
        Term::Var(_) => {},
        Term::Abs(b) => lemma_subst_after_shift(*b, i + 1, shift_up(v, 1)),
        Term::App(f, a) => {
            lemma_subst_after_shift(*f, i, v);
            lemma_subst_after_shift(*a, i, v);
        },
    }
}

/// Every free index of `t` is at most `n`: under `k` binders a variable `i` has `i <= n + k`.
pub open spec fn closed_within(t: Term, n: nat) -> bool
    decreases t,
{
    match t {
        Term::Var(i) => i <= n,
        Term::Abs(b) => closed_within(*b, n + 1),
        Term::App(f, a) => closed_within(*f, n) && closed_within(*a, n),
    }
}

proof fn lemma_closed_within_mono(t: Term, n: nat, m: nat)
    requires
        closed_within(t, n),
        n <= m,
    ensures
        closed_within(t, m),
    decreases t,
{
    match t {
        Term::Var(_) => {},
        Term::Abs(b) => lemma_closed_within_mono(*b, n + 1, m + 1),
        Term::App(f, a) => {
            lemma_closed_within_mono(*f, n, m);
            lemma_closed_within_mono(*a, n, m);
        },
    }
}

/// Shifting at cutoff `c` leaves a term unchanged when all its free indices lie below `c`.
pub proof fn lemma_shift_closed(t: Term, c: nat)
    requires
        c >= 1,
        closed_within(t, (c - 1) as nat),
    ensures
        shift_up(t, c) == t,
    decreases t,
{
    match t {
        Term::Var(_) => {},
        Term::Abs(b) => lemma_shift_closed(*b, c + 1),
        Term::App(f, a) => {
            lemma_shift_closed(*f, c);
            lemma_shift_closed(*a, c);
        },
    }
}

/// No capture: substituting a closed value for index `i` of a term whose free indices are
/// at most `n` (with `1 <= i <= n`) leaves a term whose free indices are at most `n - 1`.
pub proof fn lemma_subst_closed_value(t: Term, i: nat, v: Term, n: nat)
    requires
        closed_within(v, 0),
        closed_within(t, n),
        1 <= i <= n,
    ensures
        closed_within(subst(t, i, v), (n - 1) as nat),
    decreases t,
{
    match t {
        Term::Var(j) => {
            if j as nat == i {
                lemma_closed_within_mono(v, 0, (n - 1) as nat);
            }
        },
        Term::Abs(b) => {
            lemma_shift_closed(v, 1);
            lemma_subst_closed_value(*b, i + 1, v, n + 1);
        },
        Term::App(f, a) => {
            lemma_subst_closed_value(*f, i, v, n);
            lemma_subst_closed_value(*a, i, v, n);
        },
    }
}

/// A step that returns its input returns it again when repeated, under every order.
pub proof fn lemma_fixed_point_stable(t: Term, order: Order)
    requires
        beta_step_spec(t, order) == t,
    ensures
        beta_step_spec(beta_step_spec(t, order), order) == beta_step_spec(t, order),
{
}

/// Reduction stops at a fixed point: from a term that one step leaves unchanged,
/// `beta` returns the term itself for every limit.
pub proof fn lemma_reduce_at_fixed_point(t: Term, order: Order, n: nat)
    requires
        beta_step_spec(t, order) == t,
    ensures
        reduce(t, order, n) == t,
{
}

} // verus!
