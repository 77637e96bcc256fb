use lambda_calculus::combinators::{b, c, i, iota, k, om, omm, s, w, y};
use lambda_calculus::pairs::{fls, fst, pair, pair_of, snd, tru, uncurry};
use lambda_calculus::reduction::{
    beta, beta_logged, beta_step, fits_in_machine, normalize, shift, substitute, Order,
};
use lambda_calculus::term::{abs, app, variable, Error, Term};

fn num(n: usize) -> Term {
    let mut body = Term::Var(1);
    for _ in 0..n {
        body = Term::Var(2).app(body);
    }
    abs(abs(body))
}

fn zero() -> Term {
    num(0)
}

fn one() -> Term {
    num(1)
}

fn plus() -> Term {
    abs(abs(abs(abs(
        Term::Var(4).app(Term::Var(2)).app(Term::Var(3).app(Term::Var(2)).app(Term::Var(1))),
    ))))
}

const ORDERS: [Order; 4] = [
    Order::NormalOrder,
    Order::CallByName,
    Order::ApplicativeOrder,
    Order::HeadSpine,
];

#[test]
fn substitution_avoids_capture() {
    let t = abs(app(Term::Var(1), Term::Var(2)));
    assert_eq!(substitute(&t, 1, &i()), abs(app(Term::Var(1), i())));
    assert_eq!(substitute(&t, 1, &Term::Var(1)), abs(app(Term::Var(1), Term::Var(2))));
    let t3 = abs(app(Term::Var(1), Term::Var(3)));
    assert_eq!(substitute(&t3, 1, &i()), abs(app(Term::Var(1), Term::Var(2))));
}

#[test]
fn shift_moves_free_indices_only() {
    let t = abs(app(Term::Var(1), Term::Var(2)));
    assert_eq!(shift(&t, 1), abs(app(Term::Var(1), Term::Var(3))));
    assert_eq!(shift(&Term::Var(1), 2), Term::Var(1));
}

#[test]
fn fixed_point_is_stable_for_every_order() {
    for order in ORDERS {
        let t = k();
        let once = beta_step(t.clone(), order);
        assert_eq!(once, t);
        assert_eq!(beta_step(once, order), t);
    }
    let once = beta_step(omm(), Order::NormalOrder);
    assert_eq!(once, omm());
    assert_eq!(beta_step(once, Order::NormalOrder), omm());
}

#[test]
fn normal_and_applicative_agree() {
    let t = s().app(k()).app(k()).app(num(2));
    assert_eq!(beta(t.clone(), Order::NormalOrder, 0, false), num(2));
    assert_eq!(beta(t, Order::ApplicativeOrder, 0, false), num(2));
}

#[test]
fn church_addition() {
    let sum = plus().app(num(3)).app(num(2));
    assert_eq!(beta(sum, Order::NormalOrder, 500, false), normalize(num(5)));
}

#[test]
fn strategies_differ_on_redex_choice() {
    let t = abs(i().app(Term::Var(1)));
    assert_eq!(beta_step(t.clone(), Order::CallByName), t);
    assert_eq!(beta_step(t.clone(), Order::NormalOrder), abs(Term::Var(1)));
    assert_eq!(beta_step(t, Order::HeadSpine), abs(Term::Var(1)));
    let u = Term::Var(1).app(i().app(Term::Var(2)));
    assert_eq!(beta_step(u.clone(), Order::HeadSpine), u);
    assert_eq!(beta_step(u.clone(), Order::NormalOrder), Term::Var(1).app(Term::Var(2)));
    let v = k().app(i().app(Term::Var(7)));
    assert_eq!(beta_step(v.clone(), Order::ApplicativeOrder), k().app(Term::Var(7)));
    assert_eq!(beta_step(v, Order::NormalOrder), abs(i().app(Term::Var(8))));
}

#[test]
fn divergent_term_is_cut_by_limit() {
    let t = w().app(w()).app(w());
    let r = beta(t.clone(), Order::NormalOrder, 3, false);
    assert_ne!(r, t);
    assert_eq!(beta(omm(), Order::NormalOrder, 0, false), omm());
}

#[test]
fn logged_reduction_records_steps() {
    let mut log = Vec::new();
    let r = beta_logged(i().app(i().app(zero())), Order::NormalOrder, 0, true, &mut log);
    assert_eq!(r, zero());
    assert_eq!(log, vec![i().app(zero()), zero()]);
    let mut quiet = Vec::new();
    beta_logged(i().app(zero()), Order::NormalOrder, 0, false, &mut quiet);
    assert!(quiet.is_empty());
}

#[test]
fn machine_limits() {
    assert!(fits_in_machine(&i()));
    assert!(!fits_in_machine(&Term::Var(usize::MAX)));
    assert_eq!(beta(Term::Var(usize::MAX), Order::NormalOrder, 0, false), Term::Var(usize::MAX));
}

#[test]
fn combinator_laws() {
    assert_eq!(normalize(i().app(zero())), zero());
    assert_eq!(normalize(k().app(zero()).app(one())), zero());
    assert_eq!(
        normalize(s().app(zero()).app(one()).app(num(2))),
        normalize(zero().app(num(2)).app(one().app(num(2))))
    );
    assert_eq!(normalize(iota().app(iota())), i());
    assert_eq!(normalize(iota().app(iota().app(iota().app(iota())))), k());
    assert_eq!(normalize(iota().app(iota().app(iota().app(iota().app(iota()))))), s());
    assert_eq!(
        normalize(b().app(zero()).app(one()).app(num(2))),
        normalize(zero().app(one().app(num(2))))
    );
    assert_eq!(
        normalize(c().app(zero()).app(one()).app(num(2))),
        normalize(zero().app(num(2)).app(one()))
    );
    assert_eq!(
        normalize(w().app(zero()).app(one())),
        normalize(zero().app(one()).app(one()))
    );
    assert_eq!(normalize(om().app(zero())), normalize(zero().app(zero())));
    assert_eq!(normalize(y().app(zero())), normalize(zero().app(y().app(zero()))));
}

#[test]
fn combinator_shapes() {
    assert_eq!(i(), abs(variable(1)));
    assert_eq!(k(), abs(abs(Term::Var(2))));
    assert_eq!(omm(), om().app(om()));
    assert_eq!(tru(), k());
    assert_eq!(fls(), abs(abs(Term::Var(1))));
}

#[test]
fn pair_projections() {
    let pair01 = pair().app(zero()).app(one());
    assert!(pair01.is_pair());
    assert_eq!(pair01.fst_ref(), Ok(&zero()));
    assert_eq!(pair01.snd_ref(), Ok(&one()));
    assert_eq!(pair01.unpair_ref(), Ok((&zero(), &one())));
    assert_eq!(pair01.clone().unpair(), Ok((zero(), one())));
    assert_eq!(pair01.clone().fst(), Ok(zero()));
    assert_eq!(pair01.clone().snd(), Ok(one()));
    assert_eq!(beta(fst().app(pair01.clone()), Order::NormalOrder, 0, false), zero());
    assert_eq!(beta(snd().app(pair01), Order::NormalOrder, 0, false), one());
}

#[test]
fn pair_errors() {
    assert!(!i().is_pair());
    assert_eq!(Term::Var(1).unpair(), Err(Error::NotAPair));
    assert_eq!(abs(Term::Var(1).app(Term::Var(2))).fst(), Err(Error::NotApp));
    assert_eq!(Term::Var(1).app(Term::Var(2)).unpair_ref(), Err(Error::NotApp));
    assert_eq!(Term::from((zero(), one())), pair_of(zero(), one()));
    let p = pair_of(zero(), one());
    assert!(p.is_pair());
    assert_eq!(p.snd(), Ok(one()));
}

#[test]
fn uncurry_adds_pair() {
    let pair35 = pair().app(num(3)).app(num(5));
    assert_eq!(beta(uncurry().app(plus()).app(pair35), Order::NormalOrder, 0, false), num(8));
    assert_eq!(beta(uncurry(), Order::NormalOrder, 0, false), uncurry());
}

#[test]
fn decomposition_helpers() {
    assert_eq!(i().unabs(), Ok(Term::Var(1)));
    assert_eq!(Term::Var(1).unabs(), Err(Error::NotAbs));
    assert_eq!(app(Term::Var(1), Term::Var(2)).unapp(), Ok((Term::Var(1), Term::Var(2))));
    assert_eq!(i().unapp(), Err(Error::NotApp));
    assert_eq!(app(Term::Var(1), Term::Var(2)).lhs(), Ok(Term::Var(1)));
    assert_eq!(app(Term::Var(1), Term::Var(2)).rhs(), Ok(Term::Var(2)));
    assert_eq!(i().rhs_ref(), Err(Error::NotApp));
    assert_eq!(i().unabs_ref(), Ok(&Term::Var(1)));
}

#[test]
fn pair_mutable_access() {
    let mut pair01 = pair().app(zero()).app(one());
    assert_eq!(pair01.unpair_mut(), Ok((&mut zero(), &mut one())));
    assert_eq!(pair01.fst_mut(), Ok(&mut zero()));
    assert_eq!(pair01.snd_mut(), Ok(&mut one()));
    *pair01.fst_mut().unwrap() = one();
    assert_eq!(pair01, pair().app(one()).app(one()));
    let mut p = pair_of(zero(), one());
    *p.snd_mut().unwrap() = zero();
    assert_eq!(p, pair_of(zero(), zero()));
    let mut q = i();
    assert_eq!(q.fst_mut(), Err(Error::NotAPair));
    assert_eq!(q, i());
    let mut h = Term::Var(1).app(Term::Var(2));
    assert_eq!(h.snd_mut(), Err(Error::NotApp));
    assert_eq!(h, Term::Var(1).app(Term::Var(2)));
}

#[test]
fn substitution_skips_shifted_terms() {
    let t = abs(app(Term::Var(1), Term::Var(3)));
    let shifted = shift(&t, 2);
    assert_eq!(shifted, abs(app(Term::Var(1), Term::Var(4))));
    assert_eq!(substitute(&shifted, 2, &omm()), t);
}

#[test]
fn mutable_decomposition_helpers() {
    let mut t = app(Term::Var(1), Term::Var(2));
    assert_eq!(t.lhs_ref(), Ok(&Term::Var(1)));
    *t.lhs_mut().unwrap() = Term::Var(3);
    *t.rhs_mut().unwrap() = Term::Var(4);
    assert_eq!(t, app(Term::Var(3), Term::Var(4)));
    {
        let (f, a) = t.unapp_mut().unwrap();
        *f = Term::Var(5);
        *a = Term::Var(6);
    }
    assert_eq!(t, app(Term::Var(5), Term::Var(6)));
    assert_eq!(t.unabs_mut(), Err(Error::NotAbs));
    let mut l = i();
    *l.unabs_mut().unwrap() = Term::Var(2);
    assert_eq!(l, abs(Term::Var(2)));
    assert_eq!(l.unapp_mut(), Err(Error::NotApp));
    assert_eq!(l.lhs_mut(), Err(Error::NotApp));
    assert_eq!(l.rhs_mut(), Err(Error::NotApp));
    assert_eq!(l.lhs_ref(), Err(Error::NotApp));
}
