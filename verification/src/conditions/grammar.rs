//! The condition grammar as functions on the input bytes.
//!
//! Grammar (precedence: not > and > or):
//! ```text
//! expr       = or_expr
//! or_expr    = and_expr ('or' and_expr)*
//! and_expr   = not_expr ('and' not_expr)*
//! not_expr   = 'not' not_expr | atom
//! atom       = '(' expr ')' | func_call
//! func_call  = IDENT '(' job_name [',' lookback] ')' [cmp_op NUMBER]
//!            | 'value' '(' name ')'
//! lookback   = HH '.' MM            // Autosys look-back: hours.minutes
//! ```
//!
//! Each function takes the bytes and a start position and says what is read
//! from there: a value and the position after it, an error, or `Abort` for a
//! position outside the input ([`lemma_parse_spec_total`] shows that a
//! whole-input parse never aborts).

use vstd::prelude::*;
use crate::conditions::expr::{CmpOp, ExprV, lookback_value};
use crate::text::lower_seq;

verus! {

/// Model of a parse error.
pub enum PErr {
    Unexpected { pos: int, msg: Seq<char> },
    UnknownFunction { name: Seq<char> },
    BadLookback { pos: int, raw: Seq<char> },
}

/// Outcome of reading one grammar element.
pub enum Step<T> {
    /// The value read and the position just after it.
    Done(T, int),
    /// A parse error.
    Fail(PErr),
    /// A position left the input; no reader started inside the input gets
    /// here (see [`lemma_parse_spec_total`]).
    Abort,
}

/// `u8::is_ascii_whitespace`.
pub open spec fn ws_byte(x: u8) -> bool {
    x == 32 || x == 9 || x == 10 || x == 12 || x == 13
}

/// ASCII letter or digit.
pub open spec fn alnum_byte(x: u8) -> bool {
    (97 <= x <= 122) || (65 <= x <= 90) || (48 <= x <= 57)
}

/// Bytes allowed in identifiers: letters, digits, `_`, `-`, `.`.
pub open spec fn ident_byte(x: u8) -> bool {
    alnum_byte(x) || x == 95 || x == 45 || x == 46
}

/// ASCII digit.
pub open spec fn digit_byte(x: u8) -> bool {
    48 <= x <= 57
}

/// Bytes of a look-back operand: digits and `.`.
pub open spec fn lb_byte(x: u8) -> bool {
    digit_byte(x) || x == 46
}

/// Bytes read as characters (all bytes read this way are ASCII).
pub open spec fn asc(s: Seq<u8>) -> Seq<char> {
    s.map_values(|x: u8| x as char)
}

/// Position after the whitespace starting at `p`.
pub open spec fn skip_ws(b: Seq<u8>, p: int) -> int
    decreases b.len() - p,
{
    if 0 <= p < b.len() && ws_byte(b[p]) {
        skip_ws(b, p + 1)
    } else {
        p
    }
}

/// Position after the identifier bytes starting at `p`.
pub open spec fn ident_end(b: Seq<u8>, p: int) -> int
    decreases b.len() - p,
{
    if 0 <= p < b.len() && ident_byte(b[p]) {
        ident_end(b, p + 1)
    } else {
        p
    }
}

/// Position after the look-back bytes starting at `p`.
pub open spec fn lb_end(b: Seq<u8>, p: int) -> int
    decreases b.len() - p,
{
    if 0 <= p < b.len() && lb_byte(b[p]) {
        lb_end(b, p + 1)
    } else {
        p
    }
}

/// Position after the digits starting at `p`.
pub open spec fn digits_end(b: Seq<u8>, p: int) -> int
    decreases b.len() - p,
{
    if 0 <= p < b.len() && digit_byte(b[p]) {
        digits_end(b, p + 1)
    } else {
        p
    }
}

/// `b[p] == x`.
pub open spec fn byte_at(b: Seq<u8>, p: int, x: u8) -> bool {
    0 <= p < b.len() && b[p] == x
}

/// An identifier after optional whitespace: its text and the position after it.
pub open spec fn read_ident(b: Seq<u8>, p: int) -> (Seq<char>, int) {
    let q = skip_ws(b, p);
    let e = ident_end(b, q);
    (asc(b.subrange(q, e)), e)
}

/// Message for a missing expected character.
pub open spec fn expected_msg(c: u8) -> Seq<char> {
    "expected '"@ + seq![c as char] + "'"@
}

/// The character `c` after optional whitespace. On a mismatch the error
/// position is just past the one byte that was consumed.
pub open spec fn expect_char(b: Seq<u8>, p: int, c: u8) -> Step<()> {
    let q = skip_ws(b, p);
    if byte_at(b, q, c) {
        Step::Done((), q + 1)
    } else {
        Step::Fail(
            PErr::Unexpected { pos: if 0 <= q < b.len() { q + 1 } else { q }, msg: expected_msg(c) },
        )
    }
}

/// A look-back operand `HH.MM` after optional whitespace, in seconds. An
/// operand that is malformed, or whose second count overflows `u64`, is a
/// look-back error.
pub open spec fn read_lookback(b: Seq<u8>, p: int) -> Step<u64> {
    let q = skip_ws(b, p);
    let e = lb_end(b, q);
    let raw = asc(b.subrange(q, e));
    match lookback_value(raw) {
        Err(_) => Step::Fail(PErr::BadLookback { pos: q, raw }),
        Ok(None) => Step::Fail(PErr::BadLookback { pos: q, raw }),
        Ok(Some(v)) => Step::Done(v, e),
    }
}

/// `(name)` or `(name, HH.MM)`.
pub open spec fn paren_name_lb(b: Seq<u8>, p: int) -> Step<(Seq<char>, Option<u64>)> {
    match expect_char(b, p, 40) {
        Step::Done(_, p1) => {
            let (name, p2) = read_ident(b, p1);
            if name.len() == 0 {
                Step::Fail(PErr::Unexpected { pos: p2, msg: "expected job name"@ })
            } else {
                let p3 = skip_ws(b, p2);
                let lb: Step<Option<u64>> = if byte_at(b, p3, 44) {
                    match read_lookback(b, p3 + 1) {
                        Step::Done(v, p4) => Step::Done(Some(v), p4),
                        Step::Fail(e) => Step::Fail(e),
                        Step::Abort => Step::Abort,
                    }
                } else {
                    Step::Done(None, p3)
                };
                match lb {
                    Step::Done(lb, p4) => match expect_char(b, skip_ws(b, p4), 41) {
                        Step::Done(_, p5) => Step::Done((name, lb), p5),
                        Step::Fail(e) => Step::Fail(e),
                        Step::Abort => Step::Abort,
                    },
                    Step::Fail(e) => Step::Fail(e),
                    Step::Abort => Step::Abort,
                }
            }
        },
        Step::Fail(e) => Step::Fail(e),
        Step::Abort => Step::Abort,
    }
}

/// `(name)`: a look-back operand is refused.
pub open spec fn paren_name(b: Seq<u8>, p: int) -> Step<Seq<char>> {
    match paren_name_lb(b, p) {
        Step::Done((n, lb), q) => if lb is Some {
            Step::Fail(
                PErr::Unexpected {
                    pos: q,
                    msg: "look-back operand not supported for this function"@,
                },
            )
        } else {
            Step::Done(n, q)
        },
        Step::Fail(e) => Step::Fail(e),
        Step::Abort => Step::Abort,
    }
}

/// A comparison operator after optional whitespace, and the position after it
/// (after the whitespace when there is no operator).
pub open spec fn read_op(b: Seq<u8>, p: int) -> (Option<CmpOp>, int) {
    let q = skip_ws(b, p);
    if byte_at(b, q, 33) && byte_at(b, q + 1, 61) {
        (Some(CmpOp::Ne), q + 2)
    } else if byte_at(b, q, 60) && byte_at(b, q + 1, 61) {
        (Some(CmpOp::Le), q + 2)
    } else if byte_at(b, q, 62) && byte_at(b, q + 1, 61) {
        (Some(CmpOp::Ge), q + 2)
    } else if byte_at(b, q, 61) {
        (Some(CmpOp::Eq), q + 1)
    } else if byte_at(b, q, 60) {
        (Some(CmpOp::Lt), q + 1)
    } else if byte_at(b, q, 62) {
        (Some(CmpOp::Gt), q + 1)
    } else {
        (None, q)
    }
}

/// A possibly negative integer after optional whitespace.
pub open spec fn read_int(b: Seq<u8>, p: int) -> Step<i32> {
    let q = skip_ws(b, p);
    let neg = byte_at(b, q, 45);
    let s = if neg {
        q + 1
    } else {
        q
    };
    let e = digits_end(b, s);
    let digits = asc(b.subrange(s, e));
    if digits.len() == 0 {
        Step::Fail(PErr::Unexpected { pos: e, msg: "expected integer"@ })
    } else {
        match crate::text::parse_unsigned(digits, 0x7fff_ffff) {
            None => Step::Fail(PErr::Unexpected { pos: e, msg: "integer overflow"@ }),
            Some(n) => Step::Done(
                if neg {
                    (-(n as int)) as i32
                } else {
                    n as i32
                },
                e,
            ),
        }
    }
}

/// The call forms `success`/`failure`/`done` (with their one-letter aliases).
pub open spec fn lb_call_form(f: Seq<char>) -> Option<int> {
    if f == "success"@ || f == "s"@ {
        Some(0)
    } else if f == "failure"@ || f == "f"@ {
        Some(1)
    } else if f == "done"@ || f == "d"@ {
        Some(2)
    } else {
        None
    }
}

/// The counting forms `numrun`/`numsuc`/`numfail`.
pub open spec fn count_form(f: Seq<char>) -> Option<int> {
    if f == "numrun"@ {
        Some(0)
    } else if f == "numsuc"@ {
        Some(1)
    } else if f == "numfail"@ {
        Some(2)
    } else {
        None
    }
}

/// Builds the node of a look-back call form.
pub open spec fn lb_call_node(k: int, n: Seq<char>, lb: Option<u64>) -> ExprV {
    if k == 0 {
        ExprV::Success(n, lb)
    } else if k == 1 {
        ExprV::Failure(n, lb)
    } else {
        ExprV::Done(n, lb)
    }
}

/// Builds the node of a counting form.
pub open spec fn count_node(k: int, n: Seq<char>, op: CmpOp, v: i32, lb: Option<u64>) -> ExprV {
    if k == 0 {
        ExprV::NumRun(n, op, v, lb)
    } else if k == 1 {
        ExprV::NumSuc(n, op, v, lb)
    } else {
        ExprV::NumFail(n, op, v, lb)
    }
}

/// `(job) <op> N` after `exitcode` or a counting form.
pub open spec fn op_and_int(b: Seq<u8>, p: int, after: Seq<char>) -> Step<(CmpOp, i32)> {
    let (op, q) = read_op(b, p);
    match op {
        None => Step::Fail(
            PErr::Unexpected {
                pos: q,
                msg: "expected comparison operator after "@ + after + "(...)"@,
            },
        ),
        Some(op) => match read_int(b, q) {
            Step::Done(n, e) => Step::Done((op, n), e),
            Step::Fail(e) => Step::Fail(e),
            Step::Abort => Step::Abort,
        },
    }
}

/// `success`/`failure`/`done` call of form `k`.
pub open spec fn lb_call(b: Seq<u8>, p: int, k: int) -> Step<ExprV> {
    match paren_name_lb(b, p) {
        Step::Done((n, lb), q) => Step::Done(lb_call_node(k, n, lb), q),
        Step::Fail(e) => Step::Fail(e),
        Step::Abort => Step::Abort,
    }
}

/// Node of a name-only call (`running`, `notrunning`, `value` and aliases).
pub open spec fn name_node(fl: Seq<char>, n: Seq<char>) -> ExprV {
    if fl == "running"@ || fl == "r"@ {
        ExprV::Running(n)
    } else if fl == "value"@ {
        ExprV::Value(n)
    } else {
        ExprV::NotRunning(n)
    }
}

/// A name-only call.
pub open spec fn name_call(b: Seq<u8>, p: int, fl: Seq<char>) -> Step<ExprV> {
    match paren_name(b, p) {
        Step::Done(n, q) => Step::Done(name_node(fl, n), q),
        Step::Fail(e) => Step::Fail(e),
        Step::Abort => Step::Abort,
    }
}

/// `exitcode(job) <op> N`.
pub open spec fn exit_call(b: Seq<u8>, p: int) -> Step<ExprV> {
    match paren_name(b, p) {
        Step::Done(n, q) => match op_and_int(b, q, "exitcode"@) {
            Step::Done((op, v), e) => Step::Done(ExprV::ExitCode(n, op, v), e),
            Step::Fail(e) => Step::Fail(e),
            Step::Abort => Step::Abort,
        },
        Step::Fail(e) => Step::Fail(e),
        Step::Abort => Step::Abort,
    }
}

/// `numrun`/`numsuc`/`numfail` call named `fl`.
pub open spec fn count_call(b: Seq<u8>, p: int, fl: Seq<char>) -> Step<ExprV> {
    match paren_name_lb(b, p) {
        Step::Done((n, lb), q) => match op_and_int(b, q, fl) {
            Step::Done((op, v), e) => Step::Done(count_node(count_form(fl)->0, n, op, v, lb), e),
            Step::Fail(e) => Step::Fail(e),
            Step::Abort => Step::Abort,
        },
        Step::Fail(e) => Step::Fail(e),
        Step::Abort => Step::Abort,
    }
}

/// Name-only call forms.
pub open spec fn name_form(fl: Seq<char>) -> bool {
    fl == "running"@ || fl == "r"@ || fl == "notrunning"@ || fl == "n"@ || fl == "value"@
}

/// A function call whose name `func` has been read; `p` is just before `(`.
/// Function names are matched case-insensitively.
pub open spec fn func_call(b: Seq<u8>, p: int, func: Seq<char>) -> Step<ExprV> {
    let fl = lower_seq(func);
    if lb_call_form(fl) is Some {
        lb_call(b, p, lb_call_form(fl)->0)
    } else if name_form(fl) {
        name_call(b, p, fl)
    } else if fl == "exitcode"@ {
        exit_call(b, p)
    } else if count_form(fl) is Some {
        count_call(b, p, fl)
    } else {
        Step::Fail(PErr::UnknownFunction { name: func })
    }
}

pub proof fn lemma_skip_ws(b: Seq<u8>, p: int)
    requires
        0 <= p <= b.len(),
    ensures
        p <= skip_ws(b, p) <= b.len(),
        forall|i: int| p <= i < skip_ws(b, p) ==> ws_byte(#[trigger] b[i]),
        skip_ws(b, p) < b.len() ==> !ws_byte(b[skip_ws(b, p)]),
    decreases b.len() - p,
{
    if p < b.len() && ws_byte(b[p]) {
        lemma_skip_ws(b, p + 1);
    }
}

pub proof fn lemma_ident_end(b: Seq<u8>, p: int)
    requires
        0 <= p <= b.len(),
    ensures
        p <= ident_end(b, p) <= b.len(),
        forall|i: int| p <= i < ident_end(b, p) ==> ident_byte(#[trigger] b[i]),
        ident_end(b, p) < b.len() ==> !ident_byte(b[ident_end(b, p)]),
    decreases b.len() - p,
{
    if p < b.len() && ident_byte(b[p]) {
        lemma_ident_end(b, p + 1);
    }
}

pub proof fn lemma_lb_end(b: Seq<u8>, p: int)
    requires
        0 <= p <= b.len(),
    ensures
        p <= lb_end(b, p) <= b.len(),
        forall|i: int| p <= i < lb_end(b, p) ==> lb_byte(#[trigger] b[i]),
        lb_end(b, p) < b.len() ==> !lb_byte(b[lb_end(b, p)]),
    decreases b.len() - p,
{
    if p < b.len() && lb_byte(b[p]) {
        lemma_lb_end(b, p + 1);
    }
}

pub proof fn lemma_digits_end(b: Seq<u8>, p: int)
    requires
        0 <= p <= b.len(),
    ensures
        p <= digits_end(b, p) <= b.len(),
        forall|i: int| p <= i < digits_end(b, p) ==> digit_byte(#[trigger] b[i]),
        digits_end(b, p) < b.len() ==> !digit_byte(b[digits_end(b, p)]),
    decreases b.len() - p,
{
    if p < b.len() && digit_byte(b[p]) {
        lemma_digits_end(b, p + 1);
    }
}

pub proof fn lemma_skip_ws_idem(b: Seq<u8>, p: int)
    requires
        0 <= p <= b.len(),
    ensures
        skip_ws(b, skip_ws(b, p)) == skip_ws(b, p),
{
    lemma_skip_ws(b, p);
}

/// Keyword test used by the grammar (`eq_ignore_ascii_case` against a
/// lower-case word).
pub open spec fn is_word(s: Seq<char>, w: Seq<char>) -> bool {
    lower_seq(s) == w
}

/// Start and end positions for the recursive part of the grammar lie inside the input.
pub open spec fn within(b: Seq<u8>, p: int) -> bool {
    0 <= p <= b.len()
}

/// `or_expr`.
pub open spec fn p_or(b: Seq<u8>, p: int) -> Step<ExprV>
    decreases b.len() - p, 6int,
{
    if !within(b, p) {
        Step::Abort
    } else {
        match p_and(b, p) {
            Step::Done(l, p1) => if p <= p1 <= b.len() {
                or_tail(b, p1, l)
            } else {
                Step::Abort
            },
            Step::Fail(e) => Step::Fail(e),
            Step::Abort => Step::Abort,
        }
    }
}

/// `('or' and_expr)*` after `left`.
pub open spec fn or_tail(b: Seq<u8>, p: int, left: ExprV) -> Step<ExprV>
    decreases b.len() - p, 5int,
{
    if !within(b, p) {
        Step::Abort
    } else {
        let (tok, q2) = read_ident(b, p);
        proof {
            lemma_skip_ws(b, p);
            lemma_ident_end(b, skip_ws(b, p));
            reveal_strlit("or");
            assert(lower_seq(tok).len() == tok.len());
        }
        if is_word(tok, "or"@) {
            match p_and(b, q2) {
                Step::Done(r, q3) => if q2 <= q3 <= b.len() {
                    or_tail(b, q3, ExprV::Or(Box::new(left), Box::new(r)))
                } else {
                    Step::Abort
                },
                Step::Fail(e) => Step::Fail(e),
                Step::Abort => Step::Abort,
            }
        } else {
            Step::Done(left, p)
        }
    }
}

/// `and_expr`.
pub open spec fn p_and(b: Seq<u8>, p: int) -> Step<ExprV>
    decreases b.len() - p, 4int,
{
    if !within(b, p) {
        Step::Abort
    } else {
        match p_not(b, p) {
            Step::Done(l, p1) => if p <= p1 <= b.len() {
                and_tail(b, p1, l)
            } else {
                Step::Abort
            },
            Step::Fail(e) => Step::Fail(e),
            Step::Abort => Step::Abort,
        }
    }
}

/// `('and' not_expr)*` after `left`.
pub open spec fn and_tail(b: Seq<u8>, p: int, left: ExprV) -> Step<ExprV>
    decreases b.len() - p, 3int,
{
    if !within(b, p) {
        Step::Abort
    } else {
        let (tok, q2) = read_ident(b, p);
        proof {
            lemma_skip_ws(b, p);
            lemma_ident_end(b, skip_ws(b, p));
            reveal_strlit("and");
            assert(lower_seq(tok).len() == tok.len());
        }
        if is_word(tok, "and"@) {
            match p_not(b, q2) {
                Step::Done(r, q3) => if q2 <= q3 <= b.len() {
                    and_tail(b, q3, ExprV::And(Box::new(left), Box::new(r)))
                } else {
                    Step::Abort
                },
                Step::Fail(e) => Step::Fail(e),
                Step::Abort => Step::Abort,
            }
        } else {
            Step::Done(left, p)
        }
    }
}

/// `not_expr`: the keyword `not` (not followed by `(`) applies to what follows.
pub open spec fn p_not(b: Seq<u8>, p: int) -> Step<ExprV>
    decreases b.len() - p, 2int,
{
    if !within(b, p) {
        Step::Abort
    } else {
        let q = skip_ws(b, p);
        let (ident, q2) = read_ident(b, q);
        let q3 = skip_ws(b, q2);
        proof {
            lemma_skip_ws(b, p);
            lemma_skip_ws(b, q);
            lemma_ident_end(b, skip_ws(b, q));
            lemma_skip_ws(b, q2);
            reveal_strlit("not");
            assert(lower_seq(ident).len() == ident.len());
        }
        if is_word(ident, "not"@) && !byte_at(b, q3, 40) {
            match p_not(b, q3) {
                Step::Done(e, q4) => Step::Done(ExprV::Not(Box::new(e)), q4),
                Step::Fail(e) => Step::Fail(e),
                Step::Abort => Step::Abort,
            }
        } else {
            p_atom(b, q)
        }
    }
}

/// `atom`: a parenthesised expression or a function call.
pub open spec fn p_atom(b: Seq<u8>, p: int) -> Step<ExprV>
    decreases b.len() - p, 1int,
{
    if !within(b, p) {
        Step::Abort
    } else {
        let q = skip_ws(b, p);
        proof {
            lemma_skip_ws(b, p);
        }
        if byte_at(b, q, 40) {
            match p_or(b, q + 1) {
                Step::Done(e, q2) => match expect_char(b, q2, 41) {
                    Step::Done(_, q3) => Step::Done(e, q3),
                    Step::Fail(er) => Step::Fail(er),
                    Step::Abort => Step::Abort,
                },
                Step::Fail(er) => Step::Fail(er),
                Step::Abort => Step::Abort,
            }
        } else {
            let (ident, q2) = read_ident(b, q);
            if ident.len() == 0 {
                Step::Fail(PErr::Unexpected { pos: q2, msg: "expected expression"@ })
            } else {
                let q3 = skip_ws(b, q2);
                if byte_at(b, q3, 40) {
                    func_call(b, q3, ident)
                } else {
                    Step::Fail(
                        PErr::Unexpected {
                            pos: q3,
                            msg: "unexpected identifier '"@ + ident + "' without call syntax"@,
                        },
                    )
                }
            }
        }
    }
}

/// The whole input is one expression followed only by whitespace.
pub open spec fn parse_spec(b: Seq<u8>) -> Step<ExprV> {
    match p_or(b, 0) {
        Step::Done(e, p1) => {
            let q = skip_ws(b, p1);
            if q != b.len() {
                Step::Fail(
                    PErr::Unexpected {
                        pos: q,
                        msg: "trailing input: '"@ + vstd::utf8::decode_utf8(
                            b.subrange(q, b.len() as int),
                        ) + "'"@,
                    },
                )
            } else {
                Step::Done(e, q)
            }
        },
        Step::Fail(e) => Step::Fail(e),
        Step::Abort => Step::Abort,
    }
}

/// `s`, read from `p`, fails or ends inside the input at or after `p`.
pub open spec fn advances<T>(s: Step<T>, b: Seq<u8>, p: int) -> bool {
    match s {
        Step::Done(_, q) => p <= q <= b.len(),
        Step::Fail(_) => true,
        Step::Abort => false,
    }
}

proof fn lemma_expect_char(b: Seq<u8>, p: int, c: u8)
    requires
        0 <= p <= b.len(),
    ensures
        advances(expect_char(b, p, c), b, p),
{
    lemma_skip_ws(b, p);
}

proof fn lemma_read_lookback(b: Seq<u8>, p: int)
    requires
        0 <= p <= b.len(),
    ensures
        advances(read_lookback(b, p), b, p),
{
    lemma_skip_ws(b, p);
    lemma_lb_end(b, skip_ws(b, p));
}

proof fn lemma_read_ident(b: Seq<u8>, p: int)
    requires
        0 <= p <= b.len(),
    ensures
        p <= read_ident(b, p).1 <= b.len(),
{
    lemma_skip_ws(b, p);
    lemma_ident_end(b, skip_ws(b, p));
}

proof fn lemma_paren_name_lb(b: Seq<u8>, p: int)
    requires
        0 <= p <= b.len(),
    ensures
        advances(paren_name_lb(b, p), b, p),
        advances(paren_name(b, p), b, p),
{
    lemma_expect_char(b, p, 40);
    if let Step::Done(_, p1) = expect_char(b, p, 40) {
        lemma_read_ident(b, p1);
        let p2 = read_ident(b, p1).1;
        lemma_skip_ws(b, p2);
        let p3 = skip_ws(b, p2);
        if byte_at(b, p3, 44) {
            lemma_read_lookback(b, p3 + 1);
        }
        let lb: Step<Option<u64>> = if byte_at(b, p3, 44) {
            match read_lookback(b, p3 + 1) {
                Step::Done(v, p4) => Step::Done(Some(v), p4),
                Step::Fail(e) => Step::Fail(e),
                Step::Abort => Step::Abort,
            }
        } else {
            Step::Done(None, p3)
        };
        if let Step::Done(_, p4) = lb {
            lemma_skip_ws(b, p4);
            lemma_expect_char(b, skip_ws(b, p4), 41);
        }
    }
}

proof fn lemma_op_and_int(b: Seq<u8>, p: int, after: Seq<char>)
    requires
        0 <= p <= b.len(),
    ensures
        advances(op_and_int(b, p, after), b, p),
{
    lemma_skip_ws(b, p);
    let q = read_op(b, p).1;
    assert(p <= q <= b.len());
    lemma_skip_ws(b, q);
    let q2 = skip_ws(b, q);
    let s = if byte_at(b, q2, 45) {
        q2 + 1
    } else {
        q2
    };
    lemma_digits_end(b, s);
}

proof fn lemma_func_call(b: Seq<u8>, p: int, func: Seq<char>)
    requires
        0 <= p <= b.len(),
    ensures
        advances(func_call(b, p, func), b, p),
{
    lemma_paren_name_lb(b, p);
    if let Step::Done(_, q) = paren_name_lb(b, p) {
        lemma_op_and_int(b, q, lower_seq(func));
        lemma_op_and_int(b, q, "exitcode"@);
    }
}

proof fn lemma_p_or(b: Seq<u8>, p: int)
    requires
        0 <= p <= b.len(),
    ensures
        advances(p_or(b, p), b, p),
    decreases b.len() - p, 6int,
{
    lemma_p_and(b, p);
    if let Step::Done(l, p1) = p_and(b, p) {
        lemma_or_tail(b, p1, l);
    }
}

proof fn lemma_or_tail(b: Seq<u8>, p: int, left: ExprV)
    requires
        0 <= p <= b.len(),
    ensures
        advances(or_tail(b, p, left), b, p),
    decreases b.len() - p, 5int,
{
    let (tok, q2) = read_ident(b, p);
    lemma_skip_ws(b, p);
    lemma_ident_end(b, skip_ws(b, p));
    reveal_strlit("or");
    assert(lower_seq(tok).len() == tok.len());
    if is_word(tok, "or"@) {
        lemma_p_and(b, q2);
        if let Step::Done(r, q3) = p_and(b, q2) {
            lemma_or_tail(b, q3, ExprV::Or(Box::new(left), Box::new(r)));
        }
    }
}

proof fn lemma_p_and(b: Seq<u8>, p: int)
    requires
        0 <= p <= b.len(),
    ensures
        advances(p_and(b, p), b, p),
    decreases b.len() - p, 4int,
{
    lemma_p_not(b, p);
    if let Step::Done(l, p1) = p_not(b, p) {
        lemma_and_tail(b, p1, l);
    }
}

proof fn lemma_and_tail(b: Seq<u8>, p: int, left: ExprV)
    requires
        0 <= p <= b.len(),
    ensures
        advances(and_tail(b, p, left), b, p),
    decreases b.len() - p, 3int,
{
    let (tok, q2) = read_ident(b, p);
    lemma_skip_ws(b, p);
    lemma_ident_end(b, skip_ws(b, p));
    reveal_strlit("and");
    assert(lower_seq(tok).len() == tok.len());
    if is_word(tok, "and"@) {
        lemma_p_not(b, q2);
        if let Step::Done(r, q3) = p_not(b, q2) {
            lemma_and_tail(b, q3, ExprV::And(Box::new(left), Box::new(r)));
        }
    }
}

proof fn lemma_p_not(b: Seq<u8>, p: int)
    requires
        0 <= p <= b.len(),
    ensures
        advances(p_not(b, p), b, p),
    decreases b.len() - p, 2int,
{
    lemma_skip_ws(b, p);
    let q = skip_ws(b, p);
    let (ident, q2) = read_ident(b, q);
    lemma_read_ident(b, q);
    lemma_skip_ws(b, q);
    lemma_ident_end(b, skip_ws(b, q));
    lemma_skip_ws(b, q2);
    let q3 = skip_ws(b, q2);
    reveal_strlit("not");
    assert(lower_seq(ident).len() == ident.len());
    if is_word(ident, "not"@) && !byte_at(b, q3, 40) {
        lemma_p_not(b, q3);
    } else {
        lemma_p_atom(b, q);
    }
}

proof fn lemma_p_atom(b: Seq<u8>, p: int)
    requires
        0 <= p <= b.len(),
    ensures
        advances(p_atom(b, p), b, p),
    decreases b.len() - p, 1int,
{
    lemma_skip_ws(b, p);
    let q = skip_ws(b, p);
    if byte_at(b, q, 40) {
        lemma_p_or(b, q + 1);
        if let Step::Done(_, q2) = p_or(b, q + 1) {
            lemma_expect_char(b, q2, 41);
        }
    } else {
        let (ident, q2) = read_ident(b, q);
        lemma_read_ident(b, q);
        lemma_skip_ws(b, q2);
        lemma_func_call(b, skip_ws(b, q2), ident);
    }
}

/// A whole-input parse never aborts: it gives an expression or an error.
pub proof fn lemma_parse_spec_total(b: Seq<u8>)
    ensures
        !(parse_spec(b) is Abort),
{
    lemma_p_or(b, 0);
}

} // verus!
