//! A recursive-descent parser for classic (named) and de Bruijn notation.
use vstd::prelude::*;
use vstd::string::StrSliceExecFns;
use crate::term::Term;

verus! {

/// The surface syntax of the source text.
#[derive(Debug, PartialEq, Eq, Structural, Clone, Copy)]
pub enum Notation {
    /// Named variables: `λx.λy.x`, `\x y. x`.
    Classic,
    /// Anonymous binders and numeric indices: `λλ2`.
    DeBruijn,
}

/// Why a text is not a term.
#[derive(Debug, PartialEq, Eq, Structural, Clone, Copy)]
pub enum ParseErrorKind {
    /// A `(` without its `)`, or a `)` without its `(`.
    UnmatchedParen,
    /// A binder, parenthesis or whole text with nothing in it.
    MissingTerm,
    /// A classic binder without a name, or a name not followed by `.`.
    MissingDot,
    /// A character that no rule of the notation accepts.
    UnexpectedChar,
    /// A de Bruijn index that is `0` or does not fit in `usize`.
    InvalidIndex,
    /// A free variable whose index would not fit in `usize`.
    TooManyNames,
}

/// A parse failure with the character position where it was found.
#[derive(Debug, PartialEq, Eq, Structural, Clone, Copy)]
pub struct ParseError {
    /// What went wrong.
    pub reason: ParseErrorKind,
    /// The position, in characters from the start of the text.
    pub position: usize,
}

/// Whether `c` may occur in a classic variable name.
pub open spec fn is_name_char(c: char) -> bool {
    ('a' <= c && c <= 'z') || ('A' <= c && c <= 'Z') || c == '_' || c == '\''
}

/// Whether `c` is a decimal digit.
pub open spec fn is_digit(c: char) -> bool {
    '0' <= c && c <= '9'
}

/// Whether `c` opens a binder.
pub open spec fn is_binder(c: char) -> bool {
    c == 'λ' || c == '\\'
}

/// Whether `c` is skipped between tokens.
pub open spec fn is_space(c: char) -> bool {
    c == ' ' || c == '\t' || c == '\n' || c == '\r'
}

/// The span `[a, b)` of the text names a variable.
pub type Span = (usize, usize);

/// Whether two spans of `s` hold the same name.
pub open spec fn same_text(s: Seq<char>, x: Span, y: Span) -> bool {
    s.subrange(x.0 as int, x.1 as int) == s.subrange(y.0 as int, y.1 as int)
}

/// The first position at or after `p` that holds no white space.
pub open spec fn skip_spaces(s: Seq<char>, p: nat) -> nat
    decreases s.len() - p,
{
    if p < s.len() && is_space(s[p as int]) {
        skip_spaces(s, p + 1)
    } else {
        p
    }
}

/// The end of the run of name characters that starts at `p`.
pub open spec fn name_end(s: Seq<char>, p: nat) -> nat
    decreases s.len() - p,
{
    if p < s.len() && is_name_char(s[p as int]) {
        name_end(s, p + 1)
    } else {
        p
    }
}

/// The value of a decimal digit.
pub open spec fn digit_value(c: char) -> nat {
    ((c as u32) - ('0' as u32)) as nat
}

/// The number `acc` followed by the digits from `p`, with the position after them;
/// `None` where it exceeds `usize::MAX`.
pub open spec fn scan_number(s: Seq<char>, p: nat, acc: nat) -> Option<(nat, nat)>
    decreases s.len() - p,
{
    if p < s.len() && is_digit(s[p as int]) {
        let v = acc * 10 + digit_value(s[p as int]);
        if v > usize::MAX {
            None
        } else {
            scan_number(s, p + 1, v)
        }
    } else {
        Some((acc, p))
    }
}

/// The names of a classic binder from `p`, each followed by optional white space, pushed
/// onto `bound`; with the position after the last one.
pub open spec fn scan_names(s: Seq<char>, p: nat, bound: Seq<Span>) -> (Seq<Span>, nat)
    decreases s.len() - p,
{
    if p < s.len() && is_name_char(s[p as int]) {
        let q = name_end(s, p);
        let next = skip_spaces(s, q);
        if p < next && next <= s.len() {
            scan_names(s, next, bound.push((p as usize, q as usize)))
        } else {
            (bound, p)
        }
    } else {
        (bound, p)
    }
}

/// The position in `bound` of the innermost of the first `j` binders named like `x`.
pub open spec fn find_bound(s: Seq<char>, bound: Seq<Span>, x: Span, j: nat) -> Option<nat>
    decreases j,
{
    if j == 0 {
        None
    } else if same_text(s, bound[j - 1], x) {
        Some((j - 1) as nat)
    } else {
        find_bound(s, bound, x, (j - 1) as nat)
    }
}

/// The position in `free` of the first name like `x` from `k` on, or `free.len()`.
pub open spec fn find_free(s: Seq<char>, free: Seq<Span>, x: Span, k: nat) -> nat
    decreases free.len() - k,
{
    if k >= free.len() {
        free.len()
    } else if same_text(s, free[k as int], x) {
        k
    } else {
        find_free(s, free, x, k + 1)
    }
}

/// The variable that the name `x` stands for: its nearest binder, else one slot above
/// the binders in scope for each free name met before it (the same slot for each
/// occurrence); with the free names after it.
pub open spec fn resolve_spec(s: Seq<char>, bound: Seq<Span>, free: Seq<Span>, x: Span, pos: nat)
    -> Result<(Term, Seq<Span>), ParseError>
{
    match find_bound(s, bound, x, bound.len()) {
        Some(j) => Ok((Term::Var((bound.len() - j) as usize), free)),
        None => {
            let k = find_free(s, free, x, 0);
            let free2 = if k == free.len() { free.push(x) } else { free };
            if bound.len() + k + 1 > usize::MAX {
                Err(ParseError { reason: ParseErrorKind::TooManyNames, position: pos as usize })
            } else {
                Ok((Term::Var((bound.len() + k + 1) as usize), free2))
            }
        },
    }
}

proof fn lemma_find_bound_same_text(s: Seq<char>, bound: Seq<Span>, x: Span, y: Span, j: nat)
    requires
        same_text(s, x, y),
    ensures
        find_bound(s, bound, x, j) == find_bound(s, bound, y, j),
    decreases j,
{
    if j > 0 {
        lemma_find_bound_same_text(s, bound, x, y, (j - 1) as nat);
    }
}

proof fn lemma_find_free_same_text(s: Seq<char>, free: Seq<Span>, x: Span, y: Span, k: nat)
    requires
        same_text(s, x, y),
    ensures
        find_free(s, free, x, k) == find_free(s, free, y, k),
    decreases free.len() - k,
{
    if k < free.len() {
        lemma_find_free_same_text(s, free, x, y, k + 1);
    }
}

proof fn lemma_find_free_pushed(s: Seq<char>, free: Seq<Span>, x: Span, k: nat)
    requires
        k <= free.len(),
        find_free(s, free, x, k) == free.len(),
    ensures
        find_free(s, free.push(x), x, k) == free.len(),
    decreases free.len() - k,
{
    if k < free.len() {
        assert(free.push(x)[k as int] == free[k as int]);
        lemma_find_free_pushed(s, free, x, k + 1);
    }
}

/// A name resolves to one variable however often it occurs: resolving a second occurrence
/// of the same name, under the same binders and with the free names that the first left,
/// gives the same variable and leaves the free names as they were.
pub proof fn lemma_free_name_stable(
    s: Seq<char>,
    bound: Seq<Span>,
    free: Seq<Span>,
    x: Span,
    y: Span,
    px: nat,
    py: nat,
)
    requires
        same_text(s, x, y),
        resolve_spec(s, bound, free, x, px) is Ok,
    ensures
        resolve_spec(s, bound, resolve_spec(s, bound, free, x, px)->Ok_0.1, y, py) == resolve_spec(
            s,
            bound,
            free,
            x,
            px,
        ),
{
    lemma_find_bound_same_text(s, bound, x, y, bound.len());
    let k = find_free(s, free, x, 0);
    lemma_find_free_same_text(s, free, x, y, 0);
    if k == free.len() {
        lemma_find_free_pushed(s, free, x, 0);
        lemma_find_free_same_text(s, free.push(x), x, y, 0);
    }
}

/// `t` under `k` abstractions.
pub open spec fn abs_n(t: Term, k: nat) -> Term
    decreases k,
{
    if k == 0 {
        t
    } else {
        Term::Abs(Box::new(abs_n(t, (k - 1) as nat)))
    }
}

/// An error at position `p`.
pub open spec fn err_at(reason: ParseErrorKind, p: nat) -> ParseError {
    ParseError { reason, position: p as usize }
}

/// What one parse step yields: a term, the position after it, and the free names.
pub type Parsed = Result<(Term, nat, Seq<Span>), ParseError>;

/// An atom at `p`: a variable, `( term )`, or a binder whose body reaches as far as it can.
pub open spec fn atom_spec(s: Seq<char>, nt: Notation, bound: Seq<Span>, free: Seq<Span>, p: nat) -> Parsed
    decreases s.len() - p, 0nat,
{
    if p >= s.len() {
        Err(err_at(ParseErrorKind::MissingTerm, p))
    } else {
        let c = s[p as int];
        if c == '(' {
            match app_spec(s, nt, bound, free, p + 1) {
                Err(e) => Err(e),
                Ok((t, q, f2)) => if q < s.len() && s[q as int] == ')' {
                    Ok((t, q + 1, f2))
                } else {
                    Err(err_at(ParseErrorKind::UnmatchedParen, q))
                },
            }
        } else if is_binder(c) {
            let p1 = skip_spaces(s, p + 1);
            if nt == Notation::Classic {
                let (b2, p2) = scan_names(s, p1, bound);
                if b2.len() == bound.len() || p2 >= s.len() || s[p2 as int] != '.' || p2 < p {
                    Err(err_at(ParseErrorKind::MissingDot, p2))
                } else {
                    match app_spec(s, nt, b2, free, p2 + 1) {
                        Err(e) => Err(e),
                        Ok((t, q, f2)) => Ok((abs_n(t, (b2.len() - bound.len()) as nat), q, f2)),
                    }
                }
            } else {
                let p2 = if p1 < s.len() && s[p1 as int] == '.' { p1 + 1 } else { p1 };
                if p2 <= p || p2 > s.len() {
                    Err(err_at(ParseErrorKind::MissingTerm, p))
                } else {
                    match app_spec(s, nt, bound, free, p2) {
                        Err(e) => Err(e),
                        Ok((t, q, f2)) => Ok((Term::Abs(Box::new(t)), q, f2)),
                    }
                }
            }
        } else if nt == Notation::DeBruijn && is_digit(c) {
            match scan_number(s, p, 0) {
                Some((v, q)) => if v == 0 {
                    Err(err_at(ParseErrorKind::InvalidIndex, p))
                } else {
                    Ok((Term::Var(v as usize), q, free))
                },
                None => Err(err_at(ParseErrorKind::InvalidIndex, p)),
            }
        } else if nt == Notation::Classic && is_name_char(c) {
            let q = name_end(s, p);
            match resolve_spec(s, bound, free, (p as usize, q as usize), p) {
                Err(e) => Err(e),
                Ok((v, f2)) => Ok((v, q, f2)),
            }
        } else {
            Err(err_at(ParseErrorKind::UnexpectedChar, p))
        }
    }
}

/// Atoms from `p` on, folded to the left onto `acc`, up to a `)` or the end.
pub open spec fn app_rest(
    s: Seq<char>,
    nt: Notation,
    bound: Seq<Span>,
    free: Seq<Span>,
    p: nat,
    acc: Option<Term>,
) -> Parsed
    decreases s.len() - p, 1nat,
{
    let p1 = skip_spaces(s, p);
    if p1 < s.len() && s[p1 as int] != ')' && p <= p1 {
        match atom_spec(s, nt, bound, free, p1) {
            Err(e) => Err(e),
            Ok((t, q, f2)) => {
                let acc2 = match acc {
                    None => t,
                    Some(f) => Term::App(Box::new(f), Box::new(t)),
                };
                if p1 < q && q <= s.len() {
                    app_rest(s, nt, bound, f2, q, Some(acc2))
                } else {
                    Err(err_at(ParseErrorKind::MissingTerm, p1))
                }
            },
        }
    } else {
        match acc {
            None => Err(err_at(ParseErrorKind::MissingTerm, p1)),
            Some(t) => Ok((t, p1, free)),
        }
    }
}

/// One or more atoms from `p`, applied left to right.
pub open spec fn app_spec(s: Seq<char>, nt: Notation, bound: Seq<Span>, free: Seq<Span>, p: nat) -> Parsed
    decreases s.len() - p, 2nat,
{
    app_rest(s, nt, bound, free, p, None)
}

/// What parsing the whole text gives: a term, or the first error and where it was found.
pub open spec fn parses(s: Seq<char>, nt: Notation) -> Result<Term, ParseError> {
    match app_spec(s, nt, Seq::empty(), Seq::empty(), 0) {
        Err(e) => Err(e),
        Ok((t, p, _)) => if p < s.len() {
            Err(err_at(ParseErrorKind::UnmatchedParen, p))
        } else {
            Ok(t)
        },
    }
}

/// Every span lies within the text.
pub open spec fn spans_ok(s: Seq<char>, v: Seq<Span>) -> bool {
    forall|i: int| 0 <= i < v.len() ==> (#[trigger] v[i]).0 <= v[i].1 <= s.len()
}

/// The mutable state of one parse: the text and the names in play.
struct Cursor {
    chars: Vec<char>,
    notation: Notation,
    /// Names bound by the enclosing binders, innermost last.
    bound: Vec<Span>,
    /// Free names in the order of their first occurrence.
    free: Vec<Span>,
}

impl Cursor {
    spec fn inv(&self) -> bool {
        spans_ok(self.chars@, self.bound@) && spans_ok(self.chars@, self.free@)
    }
}

fn fail<T>(reason: ParseErrorKind, position: usize) -> (r: Result<T, ParseError>)
    ensures
        r == Err::<T, ParseError>(ParseError { reason, position }),
{
    Err(ParseError { reason, position })
}

fn is_name_char_exec(c: char) -> (r: bool)
    ensures
        r == is_name_char(c),
{
    ('a' <= c && c <= 'z') || ('A' <= c && c <= 'Z') || c == '_' || c == '\''
}

fn same_span(chars: &Vec<char>, x: Span, y: Span) -> (r: bool)
    requires
        x.0 <= x.1 <= chars@.len(),
        y.0 <= y.1 <= chars@.len(),
    ensures
        r == same_text(chars@, x, y),
{
    if x.1 - x.0 != y.1 - y.0 {
        assert(chars@.subrange(x.0 as int, x.1 as int).len() != chars@.subrange(y.0 as int, y.1 as int).len());
        return false;
    }
    let n = x.1 - x.0;
    let mut i: usize = 0;
    while i < n
        invariant
            n == x.1 - x.0,
            n == y.1 - y.0,
            x.0 <= x.1 <= chars@.len(),
            y.0 <= y.1 <= chars@.len(),
            i <= n,
            forall|j: int| 0 <= j < i ==> #[trigger] chars@[x.0 + j] == chars@[y.0 + j],
        decreases n - i,
    {
        if chars[x.0 + i] != chars[y.0 + i] {
            assert(chars@.subrange(x.0 as int, x.1 as int)[i as int] == chars@[x.0 + i]);
            assert(chars@.subrange(y.0 as int, y.1 as int)[i as int] == chars@[y.0 + i]);
            return false;
        }
        i = i + 1;
    }
    assert forall|j: int| 0 <= j < n implies chars@.subrange(x.0 as int, x.1 as int)[j] == chars@.subrange(
        y.0 as int,
        y.1 as int,
    )[j] by {
        assert(chars@[x.0 + j] == chars@[y.0 + j]);
    }
    assert(chars@.subrange(x.0 as int, x.1 as int) =~= chars@.subrange(y.0 as int, y.1 as int));
    true
}

fn skip_space(chars: &Vec<char>, pos: usize) -> (r: usize)
    requires
        pos <= chars@.len(),
    ensures
        pos <= r <= chars@.len(),
        r as nat == skip_spaces(chars@, pos as nat),
{
    let mut p = pos;
    while p < chars.len() && (chars[p] == ' ' || chars[p] == '\t' || chars[p] == '\n' || chars[p] == '\r')
        invariant
            pos <= p <= chars@.len(),
            skip_spaces(chars@, p as nat) == skip_spaces(chars@, pos as nat),
        decreases chars@.len() - p,
    {
        p = p + 1;
    }
    p
}

fn name_end_exec(chars: &Vec<char>, pos: usize) -> (r: usize)
    requires
        pos <= chars@.len(),
    ensures
        pos <= r <= chars@.len(),
        r as nat == name_end(chars@, pos as nat),
{
    let mut p = pos;
    while p < chars.len() && is_name_char_exec(chars[p])
        invariant
            pos <= p <= chars@.len(),
            name_end(chars@, p as nat) == name_end(chars@, pos as nat),
        decreases chars@.len() - p,
    {
        p = p + 1;
    }
    p
}

fn scan_number_exec(chars: &Vec<char>, pos: usize) -> (r: Option<(usize, usize)>)
    requires
        pos <= chars@.len(),
    ensures
        match r {
            Some((v, q)) => scan_number(chars@, pos as nat, 0) == Some((v as nat, q as nat))
                && pos <= q <= chars@.len()
                && (pos < chars@.len() && is_digit(chars@[pos as int]) ==> pos < q),
            None => scan_number(chars@, pos as nat, 0) is None,
        },
{
    let mut value: usize = 0;
    let mut p = pos;
    while p < chars.len() && '0' <= chars[p] && chars[p] <= '9'
        invariant
            pos <= p <= chars@.len(),
            scan_number(chars@, p as nat, value as nat) == scan_number(chars@, pos as nat, 0),
        decreases chars@.len() - p,
    {
        let digit = (chars[p] as u32 - '0' as u32) as usize;
        assert(digit as nat == digit_value(chars@[p as int]));
        match value.checked_mul(10) {
            None => {
                return None;
            },
            Some(m) => match m.checked_add(digit) {
                None => {
                    return None;
                },
                Some(v) => {
                    value = v;
                },
            },
        }
        p = p + 1;
    }
    Some((value, p))
}

/// Pushes the names of a classic binder onto `cur.bound`.
fn scan_names_exec(cur: &mut Cursor, pos: usize) -> (r: usize)
    requires
        pos <= old(cur).chars@.len(),
        old(cur).inv(),
    ensures
        final(cur).chars@ == old(cur).chars@,
        final(cur).notation == old(cur).notation,
        final(cur).free@ == old(cur).free@,
        final(cur).inv(),
        pos <= r <= old(cur).chars@.len(),
        (final(cur).bound@, r as nat) == scan_names(old(cur).chars@, pos as nat, old(cur).bound@),
        final(cur).bound@.len() >= old(cur).bound@.len(),
        final(cur).bound@.subrange(0, old(cur).bound@.len() as int) == old(cur).bound@,
{
    let len = cur.chars.len();
    let mut p = pos;
    while p < len && is_name_char_exec(cur.chars[p])
        invariant
            pos <= p <= len,
            len == cur.chars@.len(),
            cur.chars@ == old(cur).chars@,
            cur.notation == old(cur).notation,
            cur.free@ == old(cur).free@,
            cur.inv(),
            scan_names(cur.chars@, p as nat, cur.bound@) == scan_names(old(cur).chars@, pos as nat, old(cur).bound@),
            cur.bound@.len() >= old(cur).bound@.len(),
            cur.bound@.subrange(0, old(cur).bound@.len() as int) == old(cur).bound@,
        decreases len - p,
    {
        let q = name_end_exec(&cur.chars, p + 1);
        let next = skip_space(&cur.chars, q);
        let ghost before = cur.bound@;
        cur.bound.push((p, q));
        assert(cur.bound@.subrange(0, old(cur).bound@.len() as int) =~= before.subrange(0, old(cur).bound@.len() as int));
        p = next;
    }
    p
}

proof fn lemma_find_bound_below(s: Seq<char>, bound: Seq<Span>, x: Span, j: nat)
    ensures
        find_bound(s, bound, x, j) matches Some(m) ==> m < j,
    decreases j,
{
    if j > 0 {
        lemma_find_bound_below(s, bound, x, (j - 1) as nat);
    }
}

fn find_bound_exec(cur: &Cursor, x: Span) -> (r: Option<usize>)
    requires
        cur.inv(),
        x.0 <= x.1 <= cur.chars@.len(),
    ensures
        match find_bound(cur.chars@, cur.bound@, x, cur.bound@.len()) {
            Some(j) => r == Some(j as usize) && j < cur.bound@.len(),
            None => r is None,
        },
{
    let mut j: usize = cur.bound.len();
    while j > 0
        invariant
            j <= cur.bound@.len(),
            cur.inv(),
            x.0 <= x.1 <= cur.chars@.len(),
            find_bound(cur.chars@, cur.bound@, x, j as nat) == find_bound(
                cur.chars@,
                cur.bound@,
                x,
                cur.bound@.len(),
            ),
        decreases j,
    {
        if same_span(&cur.chars, cur.bound[j - 1], x) {
            proof {
                lemma_find_bound_below(cur.chars@, cur.bound@, x, cur.bound@.len());
            }
            return Some(j - 1);
        }
        j = j - 1;
    }
    None
}

fn find_free_exec(cur: &Cursor, x: Span) -> (r: usize)
    requires
        cur.inv(),
        x.0 <= x.1 <= cur.chars@.len(),
    ensures
        r as nat == find_free(cur.chars@, cur.free@, x, 0),
        r <= cur.free@.len(),
{
    let mut k: usize = 0;
    while k < cur.free.len()
        invariant
            k <= cur.free@.len(),
            cur.inv(),
            x.0 <= x.1 <= cur.chars@.len(),
            find_free(cur.chars@, cur.free@, x, k as nat) == find_free(cur.chars@, cur.free@, x, 0),
        decreases cur.free@.len() - k,
    {
        if same_span(&cur.chars, cur.free[k], x) {
            return k;
        }
        k = k + 1;
    }
    k
}

fn resolve(cur: &mut Cursor, x: Span, position: usize) -> (r: Result<Term, ParseError>)
    requires
        old(cur).inv(),
        x.0 <= x.1 <= old(cur).chars@.len(),
    ensures
        final(cur).chars@ == old(cur).chars@,
        final(cur).notation == old(cur).notation,
        final(cur).bound@ == old(cur).bound@,
        final(cur).inv(),
        match resolve_spec(old(cur).chars@, old(cur).bound@, old(cur).free@, x, position as nat) {
            Ok((t, f2)) => r == Ok::<Term, ParseError>(t) && final(cur).free@ == f2,
            Err(e) => r == Err::<Term, ParseError>(e),
        },
{
    let n = cur.bound.len();
    match find_bound_exec(cur, x) {
        Some(j) => {
            return Ok(Term::Var(n - j));
        },
        None => {},
    }
    let k = find_free_exec(cur, x);
    if k == cur.free.len() {
        cur.free.push(x);
    }
    if k >= usize::MAX - n {
        return fail(ParseErrorKind::TooManyNames, position);
    }
    Ok(Term::Var(n + k + 1))
}

/// `( term )` at `pos`.
fn parse_paren(cur: &mut Cursor, pos: usize) -> (r: Result<(Term, usize), ParseError>)
    requires
        pos < old(cur).chars@.len(),
        old(cur).chars@[pos as int] == '(',
        old(cur).inv(),
    ensures
        final(cur).chars@ == old(cur).chars@,
        final(cur).notation == old(cur).notation,
        final(cur).inv(),
        match r {
            Ok((t, q)) => atom_spec(old(cur).chars@, old(cur).notation, old(cur).bound@, old(cur).free@, pos as nat)
                == Ok::<(Term, nat, Seq<Span>), ParseError>((t, q as nat, final(cur).free@))
                && final(cur).bound@ == old(cur).bound@ && pos < q <= old(cur).chars@.len(),
            Err(e) => atom_spec(old(cur).chars@, old(cur).notation, old(cur).bound@, old(cur).free@, pos as nat)
                == Err::<(Term, nat, Seq<Span>), ParseError>(e),
        },
    decreases old(cur).chars@.len() - pos, 0nat,
{
    let len = cur.chars.len();
    match parse_application(cur, pos + 1) {
        Err(e) => Err(e),
        Ok((t, p)) => {
            if p < len && cur.chars[p] == ')' {
                Ok((t, p + 1))
            } else {
                fail(ParseErrorKind::UnmatchedParen, p)
            }
        },
    }
}

/// A binder at `pos` with the body that follows it.
fn parse_binder(cur: &mut Cursor, pos: usize) -> (r: Result<(Term, usize), ParseError>)
    requires
        pos < old(cur).chars@.len(),
        is_binder(old(cur).chars@[pos as int]),
        old(cur).inv(),
    ensures
        final(cur).chars@ == old(cur).chars@,
        final(cur).notation == old(cur).notation,
        final(cur).inv(),
        match r {
            Ok((t, q)) => atom_spec(old(cur).chars@, old(cur).notation, old(cur).bound@, old(cur).free@, pos as nat)
                == Ok::<(Term, nat, Seq<Span>), ParseError>((t, q as nat, final(cur).free@))
                && final(cur).bound@ == old(cur).bound@ && pos < q <= old(cur).chars@.len(),
            Err(e) => atom_spec(old(cur).chars@, old(cur).notation, old(cur).bound@, old(cur).free@, pos as nat)
                == Err::<(Term, nat, Seq<Span>), ParseError>(e),
        },
    decreases old(cur).chars@.len() - pos, 0nat,
{
    let len = cur.chars.len();
    let p1 = skip_space(&cur.chars, pos + 1);
    if cur.notation == Notation::Classic {
        let depth = cur.bound.len();
        let p2 = scan_names_exec(cur, p1);
        if cur.bound.len() == depth || p2 >= len || cur.chars[p2] != '.' {
            return fail(ParseErrorKind::MissingDot, p2);
        }
        let names = cur.bound.len() - depth;
        match parse_application(cur, p2 + 1) {
            Err(e) => Err(e),
            Ok((t, q)) => {
                cur.bound.truncate(depth);
                let mut r = t;
                let mut m: usize = 0;
                while m < names
                    invariant
                        m <= names,
                        r == abs_n(t, m as nat),
                    decreases names - m,
                {
                    r = Term::Abs(Box::new(r));
                    m = m + 1;
                }
                Ok((r, q))
            },
        }
    } else {
        let p2 = if p1 < len && cur.chars[p1] == '.' { p1 + 1 } else { p1 };
        match parse_application(cur, p2) {
            Err(e) => Err(e),
            Ok((t, q)) => Ok((Term::Abs(Box::new(t)), q)),
        }
    }
}

/// An atom at `pos`: a variable, a parenthesised term or a binder with its body.
fn parse_atom(cur: &mut Cursor, pos: usize) -> (r: Result<(Term, usize), ParseError>)
    requires
        pos < old(cur).chars@.len(),
        old(cur).inv(),
    ensures
        final(cur).chars@ == old(cur).chars@,
        final(cur).notation == old(cur).notation,
        final(cur).inv(),
        match r {
            Ok((t, q)) => atom_spec(old(cur).chars@, old(cur).notation, old(cur).bound@, old(cur).free@, pos as nat)
                == Ok::<(Term, nat, Seq<Span>), ParseError>((t, q as nat, final(cur).free@))
                && final(cur).bound@ == old(cur).bound@ && pos < q <= old(cur).chars@.len(),
            Err(e) => atom_spec(old(cur).chars@, old(cur).notation, old(cur).bound@, old(cur).free@, pos as nat)
                == Err::<(Term, nat, Seq<Span>), ParseError>(e),
        },
    decreases old(cur).chars@.len() - pos, 1nat,
{
    let c = cur.chars[pos];
    if c == '(' {
        parse_paren(cur, pos)
    } else if c == 'λ' || c == '\\' {
        parse_binder(cur, pos)
    } else if cur.notation == Notation::DeBruijn && '0' <= c && c <= '9' {
        match scan_number_exec(&cur.chars, pos) {
            None => fail(ParseErrorKind::InvalidIndex, pos),
            Some((value, p)) => {
                if value == 0 {
                    fail(ParseErrorKind::InvalidIndex, pos)
                } else {
                    Ok((Term::Var(value), p))
                }
            },
        }
    } else if cur.notation == Notation::Classic && is_name_char_exec(c) {
        let len = cur.chars.len();
        assert(pos + 1 <= len);
        let q = name_end_exec(&cur.chars, pos + 1);
        match resolve(cur, (pos, q), pos) {
            Err(e) => Err(e),
            Ok(v) => Ok((v, q)),
        }
    } else {
        fail(ParseErrorKind::UnexpectedChar, pos)
    }
}

/// One or more atoms from `pos`, folded to the left; stops before `)` or at the end.
fn parse_application(cur: &mut Cursor, pos: usize) -> (r: Result<(Term, usize), ParseError>)
    requires
        pos <= old(cur).chars@.len(),
        old(cur).inv(),
    ensures
        final(cur).chars@ == old(cur).chars@,
        final(cur).notation == old(cur).notation,
        final(cur).inv(),
        match r {
            Ok((t, q)) => app_spec(old(cur).chars@, old(cur).notation, old(cur).bound@, old(cur).free@, pos as nat)
                == Ok::<(Term, nat, Seq<Span>), ParseError>((t, q as nat, final(cur).free@))
                && final(cur).bound@ == old(cur).bound@ && pos < q <= old(cur).chars@.len(),
            Err(e) => app_spec(old(cur).chars@, old(cur).notation, old(cur).bound@, old(cur).free@, pos as nat)
                == Err::<(Term, nat, Seq<Span>), ParseError>(e),
        },
    decreases old(cur).chars@.len() - pos, 2nat,
{
    let len = cur.chars.len();
    let mut p = pos;
    let mut acc: Option<Term> = None;
    loop
        invariant
            pos <= p <= len,
            len == cur.chars@.len(),
            acc.is_some() ==> pos < p,
            cur.chars@ == old(cur).chars@,
            cur.notation == old(cur).notation,
            cur.bound@ == old(cur).bound@,
            cur.inv(),
            app_rest(cur.chars@, cur.notation, cur.bound@, cur.free@, p as nat, acc) == app_spec(
                old(cur).chars@,
                old(cur).notation,
                old(cur).bound@,
                old(cur).free@,
                pos as nat,
            ),
        decreases len - p,
    {
        let p1 = skip_space(&cur.chars, p);
        if !(p1 < len && cur.chars[p1] != ')') {
            return match acc {
                None => fail(ParseErrorKind::MissingTerm, p1),
                Some(t) => Ok((t, p1)),
            };
        }
        match parse_atom(cur, p1) {
            Err(e) => {
                return Err(e);
            },
            Ok((t, q)) => {
                acc = match acc {
                    None => Some(t),
                    Some(f) => Some(Term::App(Box::new(f), Box::new(t))),
                };
                p = q;
            },
        }
    }
}

/// Parses `input` in the given notation. Application is left-associative, a binder's body
/// reaches as far right as it can, and `λx y. b` stands for `λx.λy. b`. In classic notation
/// a name refers to its nearest binder; a free name gets one slot above the binders in
/// scope, the same slot for each occurrence.
pub fn parse(input: &str, notation: Notation) -> (r: Result<Term, ParseError>)
    ensures
        r == parses(input@, notation),
{
    let n = input.unicode_len();
    let mut chars: Vec<char> = Vec::new();
    let mut i: usize = 0;
    while i < n
        invariant
            i <= n,
            n == input@.len(),
            chars@ == input@.subrange(0, i as int),
        decreases n - i,
    {
        chars.push(input.get_char(i));
        i = i + 1;
    }
    assert(chars@ =~= input@);
    let mut cur = Cursor { chars, notation, bound: Vec::new(), free: Vec::new() };
    match parse_application(&mut cur, 0) {
        Err(e) => Err(e),
        Ok((t, p)) => {
            if p < cur.chars.len() {
                fail(ParseErrorKind::UnmatchedParen, p)
            } else {
                Ok(t)
            }
        },
    }
}

} // verus!
