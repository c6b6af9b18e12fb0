//! The grammar of typed formulas, the text after the `=` of a numeric
//! entry (`2*(3+4)cm`, `max(other.size.y, 1)`), parsed by recursive
//! descent into a tree whose numbers, units and names stay text for the
//! caller to evaluate:
//!
//! ```text
//! formula := addsub
//! addsub  := muldiv (('+' | '-') muldiv)*
//! muldiv  := power  (('*' | '/') power)*
//! power   := unary  ('^' unary)?
//! unary   := '-'? atom
//! atom    := '(' addsub ')'
//!          | name '(' addsub (',' addsub)? ')'
//!          | name ('.' field)+
//!          | name
//!          | literal unit
//! ```
//!
//! Whitespace may stand before any token. A name starts with an ASCII
//! letter and runs over ASCII letters, digits and `_`; names, fields and
//! units are lower-cased. A literal is a run of digits and dots that
//! `str::parse::<f32>` accepts: at least one digit and at most one dot. A
//! unit is the run of ASCII letters and `°` right after it.

use vstd::prelude::*;
use crate::text::{is_ws, is_whitespace, is_digit, ascii_lower_seq, to_ascii_lower, push_char, chars_of};

verus! {

/// A parsed formula, as values.
pub enum Term {
    /// A literal and its lower-cased unit (possibly empty).
    Number { digits: Seq<char>, unit: Seq<char> },
    /// A bare lower-cased name, such as `pi`.
    Constant { name: Seq<char> },
    /// A dotted property path, lower-cased, such as `other.size.y`.
    Reference { key: Seq<char> },
    /// A function applied to one or two arguments.
    Call { name: Seq<char>, first: Box<Term>, second: Option<Box<Term>> },
    Negate { inner: Box<Term> },
    Add { lhs: Box<Term>, rhs: Box<Term> },
    Subtract { lhs: Box<Term>, rhs: Box<Term> },
    Multiply { lhs: Box<Term>, rhs: Box<Term> },
    Divide { lhs: Box<Term>, rhs: Box<Term> },
    Power { lhs: Box<Term>, rhs: Box<Term> },
}

/// A parsed formula.
#[derive(Debug, PartialEq)]
pub enum Expr {
    /// A literal and its lower-cased unit (possibly empty).
    Number { digits: String, unit: String },
    /// A bare lower-cased name, such as `pi`.
    Constant(String),
    /// A dotted property path, lower-cased, such as `other.size.y`.
    Reference(String),
    /// A function applied to one or two arguments.
    Call { name: String, first: Box<Expr>, second: Option<Box<Expr>> },
    Negate(Box<Expr>),
    Add(Box<Expr>, Box<Expr>),
    Subtract(Box<Expr>, Box<Expr>),
    Multiply(Box<Expr>, Box<Expr>),
    Divide(Box<Expr>, Box<Expr>),
    Power(Box<Expr>, Box<Expr>),
}

impl Expr {
    /// The formula as values.
    pub open spec fn term(&self) -> Term
        decreases self,
    {
        match self {
            Expr::Number { digits, unit } => Term::Number { digits: digits@, unit: unit@ },
            Expr::Constant(n) => Term::Constant { name: n@ },
            Expr::Reference(k) => Term::Reference { key: k@ },
            Expr::Call { name, first, second } => Term::Call {
                name: name@,
                first: Box::new(first.term()),
                second: match second {
                    Some(b) => Some(Box::new(b.term())),
                    None => None,
                },
            },
            Expr::Negate(a) => Term::Negate { inner: Box::new(a.term()) },
            Expr::Add(a, b) => Term::Add { lhs: Box::new(a.term()), rhs: Box::new(b.term()) },
            Expr::Subtract(a, b) => Term::Subtract { lhs: Box::new(a.term()), rhs: Box::new(b.term()) },
            Expr::Multiply(a, b) => Term::Multiply { lhs: Box::new(a.term()), rhs: Box::new(b.term()) },
            Expr::Divide(a, b) => Term::Divide { lhs: Box::new(a.term()), rhs: Box::new(b.term()) },
            Expr::Power(a, b) => Term::Power { lhs: Box::new(a.term()), rhs: Box::new(b.term()) },
        }
    }
}

/// An ASCII letter.
pub open spec fn is_letter(c: char) -> bool {
    ('a' <= c && c <= 'z') || ('A' <= c && c <= 'Z')
}

/// The kinds of character runs the grammar reads.
#[derive(Debug, Clone, Copy, PartialEq, Eq, Structural)]
pub enum Run {
    /// Whitespace.
    Space,
    /// The rest of a name: ASCII letters, digits and `_`.
    Name,
    /// Digits and dots.
    Literal,
    /// ASCII letters and `°`.
    Unit,
}

/// Whether `c` continues a run of kind `k`.
pub open spec fn in_run(k: Run, c: char) -> bool {
    match k {
        Run::Space => is_ws(c),
        Run::Name => is_letter(c) || is_digit(c) || c == '_',
        Run::Literal => is_digit(c) || c == '.',
        Run::Unit => is_letter(c) || c == '°',
    }
}

/// Where the run of kind `k` that starts at `p` ends.
pub open spec fn run_end(s: Seq<char>, p: int, k: Run) -> int
    decreases s.len() - p,
{
    if 0 <= p < s.len() && in_run(k, s[p]) {
        run_end(s, p + 1, k)
    } else {
        p
    }
}

/// The position after the whitespace at `p`.
pub open spec fn skip_ws(s: Seq<char>, p: int) -> int {
    run_end(s, p, Run::Space)
}

pub proof fn lemma_run_end(s: Seq<char>, p: int, k: Run)
    requires
        0 <= p <= s.len(),
    ensures
        p <= run_end(s, p, k) <= s.len(),
        forall|j: int| p <= j < run_end(s, p, k) ==> in_run(k, #[trigger] s[j]),
        run_end(s, p, k) == s.len() || !in_run(k, s[run_end(s, p, k)]),
    decreases s.len() - p,
{
    if p < s.len() && in_run(k, s[p]) {
        lemma_run_end(s, p + 1, k);
    }
}

/// Whether a run of digits and dots is a literal `str::parse::<f32>`
/// accepts: it holds a digit and no two dots.
pub open spec fn valid_literal(d: Seq<char>) -> bool {
    &&& exists|i: int| 0 <= i < d.len() && is_digit(#[trigger] d[i])
    &&& forall|i: int, j: int| 0 <= i < j < d.len() && #[trigger] d[i] == '.' ==> #[trigger] d[j] != '.'
}

/// The character at `p`, if there is one.
pub open spec fn at(s: Seq<char>, p: int) -> Option<char> {
    if 0 <= p < s.len() { Some(s[p]) } else { None }
}

/// `s` from `a` to `b`, lower-cased.
pub open spec fn lowered(s: Seq<char>, a: int, b: int) -> Seq<char> {
    ascii_lower_seq(s.subrange(a, b))
}

/// The fields of a dotted path after its first name: each `.` must be
/// followed by a non-empty name; the path ends where no `.` follows.
pub open spec fn ref_chain(s: Seq<char>, key: Seq<char>, p: int) -> Option<(Seq<char>, int)>
    decreases s.len() - p,
{
    if 0 <= p < s.len() && s[p] == '.' {
        let e = run_end(s, p + 1, Run::Name);
        if e <= p + 1 || e > s.len() {
            None
        } else {
            ref_chain(s, key + seq!['.'] + lowered(s, p + 1, e), e)
        }
    } else {
        Some((key, p))
    }
}

/// `addsub` at `p`: the term and the position after it and the whitespace
/// that follows.
pub open spec fn parse_addsub(s: Seq<char>, p: int) -> Option<(Term, int)>
    decreases s.len() - p, 8int,
{
    if !(0 <= p <= s.len()) {
        None
    } else {
        match parse_muldiv(s, p) {
            None => None,
            Some((lhs, q)) => if p < q <= s.len() { addsub_more(s, lhs, q) } else { None },
        }
    }
}

/// The `('+' | '-') muldiv` repetitions after `lhs`, ending at `p`.
pub open spec fn addsub_more(s: Seq<char>, lhs: Term, p: int) -> Option<(Term, int)>
    decreases s.len() - p, 7int,
{
    if !(0 <= p <= s.len()) {
        None
    } else {
        let r = skip_ws(s, p);
        proof {
            lemma_run_end(s, p, Run::Space);
        }
        if at(s, r) == Some('+') || at(s, r) == Some('-') {
            match parse_muldiv(s, r + 1) {
                None => None,
                Some((rhs, t)) => {
                    let e = if s[r] == '+' {
                        Term::Add { lhs: Box::new(lhs), rhs: Box::new(rhs) }
                    } else {
                        Term::Subtract { lhs: Box::new(lhs), rhs: Box::new(rhs) }
                    };
                    if r + 1 < t <= s.len() { addsub_more(s, e, t) } else { None }
                },
            }
        } else {
            Some((lhs, r))
        }
    }
}

/// `muldiv` at `p`.
pub open spec fn parse_muldiv(s: Seq<char>, p: int) -> Option<(Term, int)>
    decreases s.len() - p, 6int,
{
    if !(0 <= p <= s.len()) {
        None
    } else {
        match parse_power(s, p) {
            None => None,
            Some((lhs, q)) => if p < q <= s.len() { muldiv_more(s, lhs, q) } else { None },
        }
    }
}

/// The `('*' | '/') power` repetitions after `lhs`, ending at `p`.
pub open spec fn muldiv_more(s: Seq<char>, lhs: Term, p: int) -> Option<(Term, int)>
    decreases s.len() - p, 5int,
{
    if !(0 <= p <= s.len()) {
        None
    } else {
        let r = skip_ws(s, p);
        proof {
            lemma_run_end(s, p, Run::Space);
        }
        if at(s, r) == Some('*') || at(s, r) == Some('/') {
            match parse_power(s, r + 1) {
                None => None,
                Some((rhs, t)) => {
                    let e = if s[r] == '*' {
                        Term::Multiply { lhs: Box::new(lhs), rhs: Box::new(rhs) }
                    } else {
                        Term::Divide { lhs: Box::new(lhs), rhs: Box::new(rhs) }
                    };
                    if r + 1 < t <= s.len() { muldiv_more(s, e, t) } else { None }
                },
            }
        } else {
            Some((lhs, r))
        }
    }
}

/// `power` at `p`: one optional `^`; the position is after the whitespace
/// that follows.
pub open spec fn parse_power(s: Seq<char>, p: int) -> Option<(Term, int)>
    decreases s.len() - p, 4int,
{
    if !(0 <= p <= s.len()) {
        None
    } else {
        match parse_unary(s, p) {
            None => None,
            Some((lhs, q)) => if p < q <= s.len() {
                let r = skip_ws(s, q);
                proof {
                    lemma_run_end(s, q, Run::Space);
                }
                if at(s, r) == Some('^') {
                    match parse_unary(s, r + 1) {
                        None => None,
                        Some((rhs, t)) => Some((Term::Power { lhs: Box::new(lhs), rhs: Box::new(rhs) }, t)),
                    }
                } else {
                    Some((lhs, r))
                }
            } else {
                None
            },
        }
    }
}

/// `unary` at `p`.
pub open spec fn parse_unary(s: Seq<char>, p: int) -> Option<(Term, int)>
    decreases s.len() - p, 3int,
{
    if !(0 <= p <= s.len()) {
        None
    } else {
        let r = skip_ws(s, p);
        proof {
            lemma_run_end(s, p, Run::Space);
        }
        if at(s, r) == Some('-') {
            match parse_atom(s, r + 1) {
                None => None,
                Some((a, t)) => Some((Term::Negate { inner: Box::new(a) }, t)),
            }
        } else {
            parse_atom(s, r)
        }
    }
}

/// `atom` at `p`.
pub open spec fn parse_atom(s: Seq<char>, p: int) -> Option<(Term, int)>
    decreases s.len() - p, 2int,
{
    if !(0 <= p <= s.len()) {
        None
    } else {
        let r = skip_ws(s, p);
        proof {
            lemma_run_end(s, p, Run::Space);
        }
        if r >= s.len() {
            None
        } else if s[r] == '(' {
            match parse_addsub(s, r + 1) {
                None => None,
                Some((e, t)) => if r + 1 < t <= s.len() {
                    let c = skip_ws(s, t);
                    if at(s, c) == Some(')') { Some((e, c + 1)) } else { None }
                } else {
                    None
                },
            }
        } else if is_letter(s[r]) {
            let e = run_end(s, r, Run::Name);
            let name = lowered(s, r, e);
            let w = skip_ws(s, e);
            proof {
                lemma_run_end(s, r, Run::Name);
                lemma_run_end(s, e, Run::Space);
            }
            if at(s, w) == Some('(') {
                match parse_addsub(s, w + 1) {
                    None => None,
                    Some((a, t)) => if w + 1 < t <= s.len() {
                        let c = skip_ws(s, t);
                        proof {
                            lemma_run_end(s, t, Run::Space);
                        }
                        if at(s, c) == Some(',') {
                            match parse_addsub(s, c + 1) {
                                None => None,
                                Some((b, u)) => if c + 1 < u <= s.len() {
                                    let d = skip_ws(s, u);
                                    if at(s, d) == Some(')') {
                                        Some((
                                            Term::Call { name, first: Box::new(a), second: Some(Box::new(b)) },
                                            d + 1,
                                        ))
                                    } else {
                                        None
                                    }
                                } else {
                                    None
                                },
                            }
                        } else if at(s, c) == Some(')') {
                            Some((Term::Call { name, first: Box::new(a), second: None }, c + 1))
                        } else {
                            None
                        }
                    } else {
                        None
                    },
                }
            } else if at(s, w) == Some('.') {
                match ref_chain(s, name, w) {
                    None => None,
                    Some((key, t)) => Some((Term::Reference { key }, t)),
                }
            } else {
                Some((Term::Constant { name }, w))
            }
        } else {
            let d = run_end(s, r, Run::Literal);
            let u = run_end(s, d, Run::Unit);
            if valid_literal(s.subrange(r, d)) {
                Some((Term::Number { digits: s.subrange(r, d), unit: lowered(s, d, u) }, u))
            } else {
                None
            }
        }
    }
}

/// A whole formula: leading and trailing whitespace, and nothing else
/// after the term.
pub open spec fn spec_parse_formula(s: Seq<char>) -> Option<Term> {
    match parse_addsub(s, skip_ws(s, 0)) {
        None => None,
        Some((e, q)) => if skip_ws(s, q) == s.len() { Some(e) } else { None },
    }
}

/// Where a parse result ends, when there is one.
pub open spec fn ends_within(r: Option<(Term, int)>, low: int, s: Seq<char>, strict: bool) -> bool {
    match r {
        Some((_, q)) => (if strict { low < q } else { low <= q }) && q <= s.len(),
        None => true,
    }
}

proof fn lemma_chain_progress(s: Seq<char>, key: Seq<char>, p: int)
    requires
        0 <= p <= s.len(),
    ensures
        match ref_chain(s, key, p) {
            Some((_, q)) => p <= q <= s.len(),
            None => true,
        },
    decreases s.len() - p,
{
    if 0 <= p < s.len() && s[p] == '.' {
        lemma_run_end(s, p + 1, Run::Name);
        let e = run_end(s, p + 1, Run::Name);
        if !(e <= p + 1 || e > s.len()) {
            lemma_chain_progress(s, key + seq!['.'] + lowered(s, p + 1, e), e);
        }
    }
}

proof fn lemma_addsub_progress(s: Seq<char>, p: int)
    requires
        0 <= p <= s.len(),
    ensures
        ends_within(parse_addsub(s, p), p, s, true),
    decreases s.len() - p, 8int,
{
    lemma_muldiv_progress(s, p);
    match parse_muldiv(s, p) {
        Some((lhs, q)) => {
            if p < q <= s.len() {
                lemma_addsub_more_progress(s, lhs, q);
            }
        },
        None => {},
    }
}

proof fn lemma_addsub_more_progress(s: Seq<char>, lhs: Term, p: int)
    requires
        0 <= p <= s.len(),
    ensures
        ends_within(addsub_more(s, lhs, p), p, s, false),
    decreases s.len() - p, 7int,
{
    lemma_run_end(s, p, Run::Space);
    let r = skip_ws(s, p);
    if at(s, r) == Some('+') || at(s, r) == Some('-') {
        lemma_muldiv_progress(s, r + 1);
        match parse_muldiv(s, r + 1) {
            Some((rhs, t)) => {
                let e = if s[r] == '+' {
                    Term::Add { lhs: Box::new(lhs), rhs: Box::new(rhs) }
                } else {
                    Term::Subtract { lhs: Box::new(lhs), rhs: Box::new(rhs) }
                };
                if r + 1 < t <= s.len() {
                    lemma_addsub_more_progress(s, e, t);
                }
            },
            None => {},
        }
    }
}

proof fn lemma_muldiv_progress(s: Seq<char>, p: int)
    requires
        0 <= p <= s.len(),
    ensures
        ends_within(parse_muldiv(s, p), p, s, true),
    decreases s.len() - p, 6int,
{
    lemma_power_progress(s, p);
    match parse_power(s, p) {
        Some((lhs, q)) => {
            if p < q <= s.len() {
                lemma_muldiv_more_progress(s, lhs, q);
            }
        },
        None => {},
    }
}

proof fn lemma_muldiv_more_progress(s: Seq<char>, lhs: Term, p: int)
    requires
        0 <= p <= s.len(),
    ensures
        ends_within(muldiv_more(s, lhs, p), p, s, false),
    decreases s.len() - p, 5int,
{
    lemma_run_end(s, p, Run::Space);
    let r = skip_ws(s, p);
    if at(s, r) == Some('*') || at(s, r) == Some('/') {
        lemma_power_progress(s, r + 1);
        match parse_power(s, r + 1) {
            Some((rhs, t)) => {
                let e = if s[r] == '*' {
                    Term::Multiply { lhs: Box::new(lhs), rhs: Box::new(rhs) }
                } else {
                    Term::Divide { lhs: Box::new(lhs), rhs: Box::new(rhs) }
                };
                if r + 1 < t <= s.len() {
                    lemma_muldiv_more_progress(s, e, t);
                }
            },
            None => {},
        }
    }
}

proof fn lemma_power_progress(s: Seq<char>, p: int)
    requires
        0 <= p <= s.len(),
    ensures
        ends_within(parse_power(s, p), p, s, true),
    decreases s.len() - p, 4int,
{
    lemma_unary_progress(s, p);
    match parse_unary(s, p) {
        Some((lhs, q)) => {
            if p < q <= s.len() {
                lemma_run_end(s, q, Run::Space);
                let r = skip_ws(s, q);
                if at(s, r) == Some('^') {
                    lemma_unary_progress(s, r + 1);
                }
            }
        },
        None => {},
    }
}

proof fn lemma_unary_progress(s: Seq<char>, p: int)
    requires
        0 <= p <= s.len(),
    ensures
        ends_within(parse_unary(s, p), p, s, true),
    decreases s.len() - p, 3int,
{
    lemma_run_end(s, p, Run::Space);
    let r = skip_ws(s, p);
    if at(s, r) == Some('-') {
        lemma_atom_progress(s, r + 1);
    } else {
        lemma_atom_progress(s, r);
    }
}

proof fn lemma_atom_progress(s: Seq<char>, p: int)
    requires
        0 <= p <= s.len(),
    ensures
        ends_within(parse_atom(s, p), p, s, true),
    decreases s.len() - p, 2int,
{
    lemma_run_end(s, p, Run::Space);
    let r = skip_ws(s, p);
    if r < s.len() {
        if s[r] == '(' {
            lemma_addsub_progress(s, r + 1);
            match parse_addsub(s, r + 1) {
                Some((e, t)) => {
                    if r + 1 < t <= s.len() {
                        lemma_run_end(s, t, Run::Space);
                    }
                },
                None => {},
            }
        } else if is_letter(s[r]) {
            lemma_run_end(s, r, Run::Name);
            let e = run_end(s, r, Run::Name);
            let name = lowered(s, r, e);
            lemma_run_end(s, e, Run::Space);
            let w = skip_ws(s, e);
            if at(s, w) == Some('(') {
                lemma_addsub_progress(s, w + 1);
                match parse_addsub(s, w + 1) {
                    Some((a, t)) => {
                        if w + 1 < t <= s.len() {
                            lemma_run_end(s, t, Run::Space);
                            let c = skip_ws(s, t);
                            if at(s, c) == Some(',') {
                                lemma_addsub_progress(s, c + 1);
                                match parse_addsub(s, c + 1) {
                                    Some((b, u)) => {
                                        if c + 1 < u <= s.len() {
                                            lemma_run_end(s, u, Run::Space);
                                        }
                                    },
                                    None => {},
                                }
                            }
                        }
                    },
                    None => {},
                }
            } else if at(s, w) == Some('.') {
                lemma_chain_progress(s, name, w);
            }
        } else {
            lemma_run_end(s, r, Run::Literal);
            let d = run_end(s, r, Run::Literal);
            lemma_run_end(s, d, Run::Unit);
            if valid_literal(s.subrange(r, d)) {
                let k = choose|i: int| 0 <= i < s.subrange(r, d).len() && is_digit(#[trigger] s.subrange(r, d)[i]);
                assert(s.subrange(r, d).len() > k);
            }
        }
    }
}

/// Every rule of the grammar that succeeds consumes input and ends within
/// the text, and the repetitions after a first operand never move back:
/// the position checks in the rules above never turn a parse away.
pub proof fn law_rules_consume_input(s: Seq<char>, p: int, lhs: Term)
    requires
        0 <= p <= s.len(),
    ensures
        ends_within(parse_addsub(s, p), p, s, true),
        ends_within(addsub_more(s, lhs, p), p, s, false),
        ends_within(parse_muldiv(s, p), p, s, true),
        ends_within(muldiv_more(s, lhs, p), p, s, false),
        ends_within(parse_power(s, p), p, s, true),
        ends_within(parse_unary(s, p), p, s, true),
        ends_within(parse_atom(s, p), p, s, true),
{
    lemma_addsub_progress(s, p);
    lemma_addsub_more_progress(s, lhs, p);
    lemma_muldiv_progress(s, p);
    lemma_muldiv_more_progress(s, lhs, p);
    lemma_power_progress(s, p);
    lemma_unary_progress(s, p);
    lemma_atom_progress(s, p);
}

fn in_run_exec(k: Run, c: char) -> (r: bool)
    ensures
        r == in_run(k, c),
{
    match k {
        Run::Space => is_whitespace(c),
        Run::Name => ('a' <= c && c <= 'z') || ('A' <= c && c <= 'Z') || ('0' <= c && c <= '9') || c == '_',
        Run::Literal => ('0' <= c && c <= '9') || c == '.',
        Run::Unit => ('a' <= c && c <= 'z') || ('A' <= c && c <= 'Z') || c == '°',
    }
}

/// Where the run of kind `k` that starts at `p` ends.
fn scan(v: &Vec<char>, p: usize, k: Run) -> (r: usize)
    requires
        p <= v@.len(),
    ensures
        r == run_end(v@, p as int, k),
        p <= r <= v@.len(),
{
    proof {
        lemma_run_end(v@, p as int, k);
    }
    let mut i = p;
    while i < v.len() && in_run_exec(k, v[i])
        invariant
            p <= i <= v@.len(),
            run_end(v@, i as int, k) == run_end(v@, p as int, k),
        decreases v.len() - i,
    {
        i = i + 1;
    }
    i
}

/// The characters of `v` from `a` to `b`, ASCII lower-cased.
fn lower_text(v: &Vec<char>, a: usize, b: usize) -> (r: String)
    requires
        a <= b <= v@.len(),
    ensures
        r@ == ascii_lower_seq(v@.subrange(a as int, b as int)),
{
    let mut s = String::new();
    let mut i = a;
    while i < b
        invariant
            a <= i <= b <= v@.len(),
            s@ == ascii_lower_seq(v@.subrange(a as int, i as int)),
        decreases b - i,
    {
        push_char(&mut s, to_ascii_lower(v[i]));
        i = i + 1;
        proof {
            assert(s@ =~= ascii_lower_seq(v@.subrange(a as int, i as int)));
        }
    }
    s
}

/// The characters of `v` from `a` to `b`.
fn text_of(v: &Vec<char>, a: usize, b: usize) -> (r: String)
    requires
        a <= b <= v@.len(),
    ensures
        r@ == v@.subrange(a as int, b as int),
{
    let mut s = String::new();
    let mut i = a;
    while i < b
        invariant
            a <= i <= b <= v@.len(),
            s@ == v@.subrange(a as int, i as int),
        decreases b - i,
    {
        push_char(&mut s, v[i]);
        i = i + 1;
        proof {
            assert(s@ =~= v@.subrange(a as int, i as int));
        }
    }
    s
}

/// Whether the characters of `v` from `a` to `b` make a valid literal.
fn is_valid_literal(v: &Vec<char>, a: usize, b: usize) -> (r: bool)
    requires
        a <= b <= v@.len(),
    ensures
        r == valid_literal(v@.subrange(a as int, b as int)),
{
    let ghost d = v@.subrange(a as int, b as int);
    let mut digit = false;
    let mut dot: Option<usize> = None;
    let mut twice = false;
    let mut i = a;
    while i < b
        invariant
            a <= i <= b <= v@.len(),
            d == v@.subrange(a as int, b as int),
            digit == exists|j: int| 0 <= j < i - a && is_digit(#[trigger] d[j]),
            twice == exists|x: int, y: int| 0 <= x < y < i - a && #[trigger] d[x] == '.' && #[trigger] d[y] == '.',
            match dot {
                Some(x) => a <= x < i && d[x - a] == '.',
                None => forall|j: int| 0 <= j < i - a ==> #[trigger] d[j] != '.',
            },
        decreases b - i,
    {
        let c = v[i];
        proof {
            assert(d[i - a] == c);
        }
        if '0' <= c && c <= '9' {
            digit = true;
        }
        if c == '.' {
            match dot {
                Some(x) => {
                    twice = true;
                    proof {
                        assert(d[x - a] == '.' && d[i - a] == '.');
                    }
                },
                None => {},
            }
            dot = Some(i);
        }
        i = i + 1;
        proof {
            if !twice {
                assert forall|x: int, y: int| 0 <= x < y < i - a && #[trigger] d[x] == '.' implies #[trigger] d[y] != '.' by {
                    if y == i - 1 - a && d[y] == '.' {
                        assert(d[x] != '.');
                    }
                }
            }
        }
    }
    digit && !twice
}

/// A parse result as values.
pub open spec fn parsed(r: Option<(Expr, usize)>) -> Option<(Term, int)> {
    match r {
        Some((e, q)) => Some((e.term(), q as int)),
        None => None,
    }
}

/// The rest of a dotted path after `key`, from `p`.
fn chain(v: &Vec<char>, key: String, p: usize) -> (r: Option<(String, usize)>)
    requires
        p <= v@.len(),
    ensures
        match r {
            Some((k, q)) => ref_chain(v@, key@, p as int) == Some((k@, q as int)),
            None => ref_chain(v@, key@, p as int) is None,
        },
    decreases v@.len() - p,
{
    if p < v.len() && v[p] == '.' {
        let e = scan(v, p + 1, Run::Name);
        if e <= p + 1 {
            None
        } else {
            let ghost key0 = key@;
            let mut k = key;
            push_char(&mut k, '.');
            let field = lower_text(v, p + 1, e);
            crate::text::push_str(&mut k, field.as_str());
            proof {
                assert(k@ =~= key0 + seq!['.'] + lowered(v@, p + 1, e as int));
            }
            chain(v, k, e)
        }
    } else {
        Some((key, p))
    }
}

fn addsub(v: &Vec<char>, p: usize) -> (r: Option<(Expr, usize)>)
    requires
        p <= v@.len(),
    ensures
        parsed(r) == parse_addsub(v@, p as int),
    decreases v@.len() - p, 8int,
{
    match muldiv(v, p) {
        None => None,
        Some((lhs, q)) => if p < q && q <= v.len() {
            addsub_rest(v, lhs, q)
        } else {
            None
        },
    }
}

fn addsub_rest(v: &Vec<char>, lhs: Expr, p: usize) -> (r: Option<(Expr, usize)>)
    requires
        p <= v@.len(),
    ensures
        parsed(r) == addsub_more(v@, lhs.term(), p as int),
    decreases v@.len() - p, 7int,
{
    let r = scan(v, p, Run::Space);
    if r < v.len() && (v[r] == '+' || v[r] == '-') {
        let plus = v[r] == '+';
        match muldiv(v, r + 1) {
            None => None,
            Some((rhs, t)) => {
                let e = if plus {
                    Expr::Add(Box::new(lhs), Box::new(rhs))
                } else {
                    Expr::Subtract(Box::new(lhs), Box::new(rhs))
                };
                if r + 1 < t && t <= v.len() {
                    addsub_rest(v, e, t)
                } else {
                    None
                }
            },
        }
    } else {
        Some((lhs, r))
    }
}

fn muldiv(v: &Vec<char>, p: usize) -> (r: Option<(Expr, usize)>)
    requires
        p <= v@.len(),
    ensures
        parsed(r) == parse_muldiv(v@, p as int),
    decreases v@.len() - p, 6int,
{
    match power(v, p) {
        None => None,
        Some((lhs, q)) => if p < q && q <= v.len() {
            muldiv_rest(v, lhs, q)
        } else {
            None
        },
    }
}

fn muldiv_rest(v: &Vec<char>, lhs: Expr, p: usize) -> (r: Option<(Expr, usize)>)
    requires
        p <= v@.len(),
    ensures
        parsed(r) == muldiv_more(v@, lhs.term(), p as int),
    decreases v@.len() - p, 5int,
{
    let r = scan(v, p, Run::Space);
    if r < v.len() && (v[r] == '*' || v[r] == '/') {
        let times = v[r] == '*';
        match power(v, r + 1) {
            None => None,
            Some((rhs, t)) => {
                let e = if times {
                    Expr::Multiply(Box::new(lhs), Box::new(rhs))
                } else {
                    Expr::Divide(Box::new(lhs), Box::new(rhs))
                };
                if r + 1 < t && t <= v.len() {
                    muldiv_rest(v, e, t)
                } else {
                    None
                }
            },
        }
    } else {
        Some((lhs, r))
    }
}

fn power(v: &Vec<char>, p: usize) -> (r: Option<(Expr, usize)>)
    requires
        p <= v@.len(),
    ensures
        parsed(r) == parse_power(v@, p as int),
    decreases v@.len() - p, 4int,
{
    match unary(v, p) {
        None => None,
        Some((lhs, q)) => if p < q && q <= v.len() {
            let r = scan(v, q, Run::Space);
            if r < v.len() && v[r] == '^' {
                match unary(v, r + 1) {
                    None => None,
                    Some((rhs, t)) => Some((Expr::Power(Box::new(lhs), Box::new(rhs)), t)),
                }
            } else {
                Some((lhs, r))
            }
        } else {
            None
        },
    }
}

fn unary(v: &Vec<char>, p: usize) -> (r: Option<(Expr, usize)>)
    requires
        p <= v@.len(),
    ensures
        parsed(r) == parse_unary(v@, p as int),
    decreases v@.len() - p, 3int,
{
    let r = scan(v, p, Run::Space);
    if r < v.len() && v[r] == '-' {
        match atom(v, r + 1) {
            None => None,
            Some((a, t)) => Some((Expr::Negate(Box::new(a)), t)),
        }
    } else {
        atom(v, r)
    }
}

fn atom(v: &Vec<char>, p: usize) -> (r: Option<(Expr, usize)>)
    requires
        p <= v@.len(),
    ensures
        parsed(r) == parse_atom(v@, p as int),
    decreases v@.len() - p, 2int,
{
    let r = scan(v, p, Run::Space);
    if r >= v.len() {
        return None;
    }
    let c0 = v[r];
    if c0 == '(' {
        match addsub(v, r + 1) {
            None => None,
            Some((e, t)) => if r + 1 < t && t <= v.len() {
                let c = scan(v, t, Run::Space);
                if c < v.len() && v[c] == ')' {
                    Some((e, c + 1))
                } else {
                    None
                }
            } else {
                None
            },
        }
    } else if ('a' <= c0 && c0 <= 'z') || ('A' <= c0 && c0 <= 'Z') {
        let e = scan(v, r, Run::Name);
        let name = lower_text(v, r, e);
        let w = scan(v, e, Run::Space);
        if w < v.len() && v[w] == '(' {
            match addsub(v, w + 1) {
                None => None,
                Some((a, t)) => if w + 1 < t && t <= v.len() {
                    let c = scan(v, t, Run::Space);
                    if c < v.len() && v[c] == ',' {
                        match addsub(v, c + 1) {
                            None => None,
                            Some((b, u)) => if c + 1 < u && u <= v.len() {
                                let d = scan(v, u, Run::Space);
                                if d < v.len() && v[d] == ')' {
                                    Some((Expr::Call { name, first: Box::new(a), second: Some(Box::new(b)) }, d + 1))
                                } else {
                                    None
                                }
                            } else {
                                None
                            },
                        }
                    } else if c < v.len() && v[c] == ')' {
                        Some((Expr::Call { name, first: Box::new(a), second: None }, c + 1))
                    } else {
                        None
                    }
                } else {
                    None
                },
            }
        } else if w < v.len() && v[w] == '.' {
            match chain(v, name, w) {
                None => None,
                Some((key, t)) => Some((Expr::Reference(key), t)),
            }
        } else {
            Some((Expr::Constant(name), w))
        }
    } else {
        let d = scan(v, r, Run::Literal);
        let u = scan(v, d, Run::Unit);
        if is_valid_literal(v, r, d) {
            Some((Expr::Number { digits: text_of(v, r, d), unit: lower_text(v, d, u) }, u))
        } else {
            None
        }
    }
}

/// Parse a formula (the text after a numeric entry's `=`): `None` when the
/// text is not a formula of the grammar.
pub fn parse_formula(src: &str) -> (r: Option<Expr>)
    ensures
        match r {
            Some(e) => spec_parse_formula(src@) == Some(e.term()),
            None => spec_parse_formula(src@) is None,
        },
{
    let v = chars_of(src);
    let p = scan(&v, 0, Run::Space);
    match addsub(&v, p) {
        None => None,
        Some((e, q)) => {
            if q <= v.len() && scan(&v, q, Run::Space) == v.len() {
                Some(e)
            } else {
                None
            }
        },
    }
}

} // verus!
