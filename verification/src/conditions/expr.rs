//! AST node types for condition expressions, their mathematical model and
//! their text form.

use vstd::prelude::*;
use crate::text::{push_char, digits_value, parse_unsigned};

verus! {

/// Comparison operator for exitcode predicates.
#[derive(Debug, Clone, Copy, PartialEq, Eq, Structural)]
pub enum CmpOp {
    /// Equal.
    Eq,
    /// Not equal.
    Ne,
    /// Less than.
    Lt,
    /// Less than or equal.
    Le,
    /// Greater than.
    Gt,
    /// Greater than or equal.
    Ge,
}

/// A condition expression node. Look-back windows are whole seconds.
#[derive(Debug, PartialEq, Eq)]
pub enum Expr {
    /// `success(job [, HH.MM])` — last run in window succeeded.
    Success(String, Option<u64>),
    /// `failure(job [, HH.MM])`.
    Failure(String, Option<u64>),
    /// `done(job [, HH.MM])`.
    Done(String, Option<u64>),
    /// Job is currently running.
    Running(String),
    /// Job is not currently running.
    NotRunning(String),
    /// Last run exit code matches comparison.
    ExitCode(String, CmpOp, i32),
    /// `numrun(job [, HH.MM]) <op> N` — count of runs in window.
    NumRun(String, CmpOp, i32, Option<u64>),
    /// `numsuc(job [, HH.MM]) <op> N` — count of successes in window.
    NumSuc(String, CmpOp, i32, Option<u64>),
    /// `numfail(job [, HH.MM]) <op> N` — count of failures in window.
    NumFail(String, CmpOp, i32, Option<u64>),
    /// Global variable lookup (deferred evaluation).
    Value(String),
    /// Logical AND of two sub-expressions.
    And(Box<Expr>, Box<Expr>),
    /// Logical OR of two sub-expressions.
    Or(Box<Expr>, Box<Expr>),
    /// Logical NOT of a sub-expression.
    Not(Box<Expr>),
}

/// Mathematical model of [`Expr`]: names are character sequences.
pub enum ExprV {
    Success(Seq<char>, Option<u64>),
    Failure(Seq<char>, Option<u64>),
    Done(Seq<char>, Option<u64>),
    Running(Seq<char>),
    NotRunning(Seq<char>),
    ExitCode(Seq<char>, CmpOp, i32),
    NumRun(Seq<char>, CmpOp, i32, Option<u64>),
    NumSuc(Seq<char>, CmpOp, i32, Option<u64>),
    NumFail(Seq<char>, CmpOp, i32, Option<u64>),
    Value(Seq<char>),
    And(Box<ExprV>, Box<ExprV>),
    Or(Box<ExprV>, Box<ExprV>),
    Not(Box<ExprV>),
}

/// The model of an expression tree.
pub open spec fn expr_view(e: Expr) -> ExprV
    decreases e,
{
    match e {
        Expr::Success(j, lb) => ExprV::Success(j@, lb),
        Expr::Failure(j, lb) => ExprV::Failure(j@, lb),
        Expr::Done(j, lb) => ExprV::Done(j@, lb),
        Expr::Running(j) => ExprV::Running(j@),
        Expr::NotRunning(j) => ExprV::NotRunning(j@),
        Expr::ExitCode(j, op, n) => ExprV::ExitCode(j@, op, n),
        Expr::NumRun(j, op, n, lb) => ExprV::NumRun(j@, op, n, lb),
        Expr::NumSuc(j, op, n, lb) => ExprV::NumSuc(j@, op, n, lb),
        Expr::NumFail(j, op, n, lb) => ExprV::NumFail(j@, op, n, lb),
        Expr::Value(n) => ExprV::Value(n@),
        Expr::And(a, b) => ExprV::And(Box::new(expr_view(*a)), Box::new(expr_view(*b))),
        Expr::Or(a, b) => ExprV::Or(Box::new(expr_view(*a)), Box::new(expr_view(*b))),
        Expr::Not(a) => ExprV::Not(Box::new(expr_view(*a))),
    }
}

impl Clone for Expr {
    fn clone(&self) -> (r: Self)
        ensures
            r == *self,
        decreases self,
    {
        match self {
            Expr::Success(j, lb) => Expr::Success(j.clone(), *lb),
            Expr::Failure(j, lb) => Expr::Failure(j.clone(), *lb),
            Expr::Done(j, lb) => Expr::Done(j.clone(), *lb),
            Expr::Running(j) => Expr::Running(j.clone()),
            Expr::NotRunning(j) => Expr::NotRunning(j.clone()),
            Expr::ExitCode(j, op, n) => Expr::ExitCode(j.clone(), *op, *n),
            Expr::NumRun(j, op, n, lb) => Expr::NumRun(j.clone(), *op, *n, *lb),
            Expr::NumSuc(j, op, n, lb) => Expr::NumSuc(j.clone(), *op, *n, *lb),
            Expr::NumFail(j, op, n, lb) => Expr::NumFail(j.clone(), *op, *n, *lb),
            Expr::Value(n) => Expr::Value(n.clone()),
            Expr::And(a, b) => Expr::And(Box::new((**a).clone()), Box::new((**b).clone())),
            Expr::Or(a, b) => Expr::Or(Box::new((**a).clone()), Box::new((**b).clone())),
            Expr::Not(a) => Expr::Not(Box::new((**a).clone())),
        }
    }
}

impl View for Expr {
    type V = ExprV;

    open spec fn view(&self) -> ExprV {
        expr_view(*self)
    }
}

/// The ASCII digit for `d < 10`.
pub open spec fn digit_char(d: nat) -> char {
    ((d + 48) as u32) as char
}

/// Decimal text of a natural number.
pub open spec fn dec(n: nat) -> Seq<char>
    decreases n,
{
    if n < 10 {
        seq![digit_char(n)]
    } else {
        dec(n / 10).push(digit_char(n % 10))
    }
}

/// Decimal text is a non-empty run of ASCII digits.
pub proof fn lemma_dec_digits(n: nat)
    ensures
        dec(n).len() >= 1,
        forall|i: int| 0 <= i < dec(n).len() ==> '0' <= #[trigger] dec(n)[i] <= '9',
    decreases n,
{
    if n >= 10 {
        lemma_dec_digits(n / 10);
    }
}

/// Decimal text padded with zeros to at least two digits (`{:02}`).
pub open spec fn pad2(n: nat) -> Seq<char> {
    if n < 10 {
        seq!['0'].push(digit_char(n))
    } else {
        dec(n)
    }
}

/// Decimal text of a signed integer (`i32` `Display`).
pub open spec fn int_text(n: int) -> Seq<char> {
    if n < 0 {
        seq!['-'] + dec((-n) as nat)
    } else {
        dec(n as nat)
    }
}

/// Text of a comparison operator.
pub open spec fn op_text(op: CmpOp) -> Seq<char> {
    match op {
        CmpOp::Eq => "="@,
        CmpOp::Ne => "!="@,
        CmpOp::Lt => "<"@,
        CmpOp::Le => "<="@,
        CmpOp::Gt => ">"@,
        CmpOp::Ge => ">="@,
    }
}

/// Text of a look-back operand: `, HH.MM` (hours, then minutes), or nothing.
pub open spec fn lb_text(lb: Option<u64>) -> Seq<char> {
    match lb {
        None => Seq::empty(),
        Some(secs) => ", "@ + pad2((secs / 60 / 60) as nat) + "."@ + pad2(((secs / 60) % 60) as nat),
    }
}

/// Text form of an expression.
pub open spec fn render(e: ExprV) -> Seq<char>
    decreases e,
{
    match e {
        ExprV::Success(j, lb) => "success("@ + j + lb_text(lb) + ")"@,
        ExprV::Failure(j, lb) => "failure("@ + j + lb_text(lb) + ")"@,
        ExprV::Done(j, lb) => "done("@ + j + lb_text(lb) + ")"@,
        ExprV::Running(j) => "running("@ + j + ")"@,
        ExprV::NotRunning(j) => "notrunning("@ + j + ")"@,
        ExprV::ExitCode(j, op, n) => "exitcode("@ + j + ") "@ + op_text(op) + " "@ + int_text(
            n as int,
        ),
        ExprV::NumRun(j, op, n, lb) => "numrun("@ + j + lb_text(lb) + ") "@ + op_text(op) + " "@
            + int_text(n as int),
        ExprV::NumSuc(j, op, n, lb) => "numsuc("@ + j + lb_text(lb) + ") "@ + op_text(op) + " "@
            + int_text(n as int),
        ExprV::NumFail(j, op, n, lb) => "numfail("@ + j + lb_text(lb) + ") "@ + op_text(op) + " "@
            + int_text(n as int),
        ExprV::Value(name) => "value("@ + name + ")"@,
        ExprV::And(a, b) => "("@ + render(*a) + " and "@ + render(*b) + ")"@,
        ExprV::Or(a, b) => "("@ + render(*a) + " or "@ + render(*b) + ")"@,
        ExprV::Not(a) => "not("@ + render(*a) + ")"@,
    }
}

/// Autosys look-back `HH.MM` read as seconds: the text splits at its first `.`
/// into hours and minutes, both unsigned integers, minutes below 60.
/// `Err(())` marks the inputs whose second count does not fit in `u64`.
#[verifier::opaque]
pub open spec fn lookback_value(s: Seq<char>) -> Result<Option<u64>, ()> {
    match crate::text::find_char(s, '.') {
        None => Ok(None),
        Some(k) => {
            let h = parse_unsigned(s.subrange(0, k), u64::MAX as nat);
            let m = parse_unsigned(s.subrange(k + 1, s.len() as int), u64::MAX as nat);
            if h is None || m is None || m->0 >= 60 {
                Ok(None)
            } else if h->0 * 3600 + m->0 * 60 > u64::MAX {
                Err(())
            } else {
                Ok(Some((h->0 * 3600 + m->0 * 60) as u64))
            }
        },
    }
}

/// Appends the decimal text of `n`.
pub fn push_dec(out: &mut String, n: u64)
    ensures
        final(out)@ == old(out)@ + dec(n as nat),
    decreases n,
{
    if n >= 10 {
        push_dec(out, n / 10);
    }
    let d = (n % 10) as u32;
    let c = ((d + 48) as u8) as char;
    assert(c == digit_char((n % 10) as nat));
    push_char(out, c);
    proof {
        if n >= 10 {
            assert(old(out)@ + dec((n / 10) as nat) + seq![c] =~= old(out)@ + dec(n as nat));
        } else {
            assert(old(out)@ + seq![c] =~= old(out)@ + dec(n as nat));
        }
    }
}

fn push_pad2(out: &mut String, n: u64)
    ensures
        final(out)@ == old(out)@ + pad2(n as nat),
{
    if n < 10 {
        push_char(out, '0');
        push_dec(out, n);
        proof {
            reveal_with_fuel(dec, 1);
            assert(old(out)@ + seq!['0'] + dec(n as nat) =~= old(out)@ + pad2(n as nat));
        }
    } else {
        push_dec(out, n);
    }
}

/// Appends the decimal text of `n` (`i32` `Display`).
pub fn push_int(out: &mut String, n: i32)
    ensures
        final(out)@ == old(out)@ + int_text(n as int),
{
    if n < 0 {
        push_char(out, '-');
        let m: u64 = (0 - (n as i64)) as u64;
        push_dec(out, m);
        assert(old(out)@ + seq!['-'] + dec(m as nat) =~= old(out)@ + int_text(n as int));
    } else {
        push_dec(out, n as u64);
    }
}

fn push_lb(out: &mut String, lb: Option<u64>)
    ensures
        final(out)@ == old(out)@ + lb_text(lb),
{
    match lb {
        None => {
            assert(old(out)@ + lb_text(lb) =~= old(out)@);
        },
        Some(secs) => {
            let total = secs / 60;
            out.append(", ");
            push_pad2(out, total / 60);
            out.append(".");
            push_pad2(out, total % 60);
            assert(final(out)@ =~= old(out)@ + lb_text(lb)) by {
                assert(final(out)@ =~= old(out)@ + ", "@ + pad2((total / 60) as nat) + "."@ + pad2(
                    (total % 60) as nat,
                ));
            }
        },
    }
}

fn push_op(out: &mut String, op: CmpOp)
    ensures
        final(out)@ == old(out)@ + op_text(op),
{
    match op {
        CmpOp::Eq => out.append("="),
        CmpOp::Ne => out.append("!="),
        CmpOp::Lt => out.append("<"),
        CmpOp::Le => out.append("<="),
        CmpOp::Gt => out.append(">"),
        CmpOp::Ge => out.append(">="),
    }
}

fn push_lb_call(out: &mut String, head: &str, j: &String, lb: Option<u64>)
    ensures
        final(out)@ == old(out)@ + (head@ + j@ + lb_text(lb) + ")"@),
{
    out.append(head);
    out.append(j.as_str());
    push_lb(out, lb);
    out.append(")");
    assert(final(out)@ =~= old(out)@ + (head@ + j@ + lb_text(lb) + ")"@));
}

fn push_call(out: &mut String, head: &str, j: &String)
    ensures
        final(out)@ == old(out)@ + (head@ + j@ + ")"@),
{
    out.append(head);
    out.append(j.as_str());
    out.append(")");
    assert(final(out)@ =~= old(out)@ + (head@ + j@ + ")"@));
}

fn push_count(out: &mut String, head: &str, j: &String, op: CmpOp, n: i32, lb: Option<u64>)
    ensures
        final(out)@ == old(out)@ + (head@ + j@ + lb_text(lb) + ") "@ + op_text(op) + " "@
            + int_text(n as int)),
{
    out.append(head);
    out.append(j.as_str());
    push_lb(out, lb);
    out.append(") ");
    push_op(out, op);
    out.append(" ");
    push_int(out, n);
    assert(final(out)@ =~= old(out)@ + (head@ + j@ + lb_text(lb) + ") "@ + op_text(op) + " "@
        + int_text(n as int)));
}

impl Expr {
    fn render_into(&self, out: &mut String)
        ensures
            final(out)@ == old(out)@ + render(self@),
        decreases self,
    {
        match self {
            Expr::Success(j, lb) => push_lb_call(out, "success(", j, *lb),
            Expr::Failure(j, lb) => push_lb_call(out, "failure(", j, *lb),
            Expr::Done(j, lb) => push_lb_call(out, "done(", j, *lb),
            Expr::Running(j) => push_call(out, "running(", j),
            Expr::NotRunning(j) => push_call(out, "notrunning(", j),
            Expr::ExitCode(j, op, n) => {
                out.append("exitcode(");
                out.append(j.as_str());
                out.append(") ");
                push_op(out, *op);
                out.append(" ");
                push_int(out, *n);
                assert(final(out)@ =~= old(out)@ + render(self@));
            },
            Expr::NumRun(j, op, n, lb) => push_count(out, "numrun(", j, *op, *n, *lb),
            Expr::NumSuc(j, op, n, lb) => push_count(out, "numsuc(", j, *op, *n, *lb),
            Expr::NumFail(j, op, n, lb) => push_count(out, "numfail(", j, *op, *n, *lb),
            Expr::Value(name) => push_call(out, "value(", name),
            Expr::And(a, b) => {
                out.append("(");
                a.render_into(out);
                out.append(" and ");
                b.render_into(out);
                out.append(")");
                assert(final(out)@ =~= old(out)@ + render(self@));
            },
            Expr::Or(a, b) => {
                out.append("(");
                a.render_into(out);
                out.append(" or ");
                b.render_into(out);
                out.append(")");
                assert(final(out)@ =~= old(out)@ + render(self@));
            },
            Expr::Not(a) => {
                out.append("not(");
                a.render_into(out);
                out.append(")");
                assert(final(out)@ =~= old(out)@ + render(self@));
            },
        }
    }

    /// The expression's text form (what `Display` prints).
    pub fn to_text(&self) -> (s: String)
        ensures
            s@ == render(self@),
    {
        let mut s = String::new();
        self.render_into(&mut s);
        assert(s@ =~= render(self@));
        s
    }
}

/// Renders an optional look-back back into Autosys `, HH.MM` form.
pub fn lb_str(lb: &Option<u64>) -> (s: String)
    ensures
        s@ == lb_text(*lb),
{
    let mut s = String::new();
    push_lb(&mut s, *lb);
    assert(s@ =~= lb_text(*lb));
    s
}

/// Parses an Autosys look-back operand `HH.MM` (hours, minutes) into seconds.
///
/// The one input left out is one whose second count does not fit in `u64`;
/// [`lookback_checked`] reports that case.
pub fn parse_lookback(s: &str) -> (r: Option<u64>)
    requires
        lookback_value(s@) is Ok,
    ensures
        r == lookback_value(s@)->Ok_0,
{
    match lookback_checked(s) {
        Ok(v) => v,
        Err(()) => None,
    }
}

/// Like [`parse_lookback`], with `Err(())` where the second count overflows `u64`.
pub fn lookback_checked(s: &str) -> (r: Result<Option<u64>, ()>)
    ensures
        r == lookback_value(s@),
{
    reveal(lookback_value);
    let v = crate::text::chars_vec(s);
    let mut k: usize = 0;
    while k < v.len() && v[k] != '.'
        invariant
            k <= v.len(),
            v@ == s@,
            forall|j: int| 0 <= j < k ==> v@[j] != '.',
        decreases v.len() - k,
    {
        k = k + 1;
    }
    if k == v.len() {
        assert(crate::text::find_char(s@, '.') is None);
        return Ok(None);
    }
    assert(crate::text::find_char(s@, '.') == Some(k as int)) by {
        let w = crate::text::find_char(s@, '.')->0;
        assert(v@[k as int] == '.');
        if w < k {
        } else if w > k {
        }
    }
    let h = crate::text::parse_unsigned_range(&v, 0, k, u64::MAX);
    let m = crate::text::parse_unsigned_range(&v, k + 1, v.len(), u64::MAX);
    match (h, m) {
        (Some(h), Some(m)) => {
            if m >= 60 {
                Ok(None)
            } else {
                match h.checked_mul(3600) {
                    None => Err(()),
                    Some(hs) => match hs.checked_add(m * 60) {
                        None => Err(()),
                        Some(t) => Ok(Some(t)),
                    },
                }
            }
        },
        _ => Ok(None),
    }
}

} // verus!
