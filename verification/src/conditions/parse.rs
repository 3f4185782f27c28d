//! Hand-written recursive-descent parser for condition expressions.
//!
//! Every reader is proved to follow the grammar functions of
//! [`crate::conditions::grammar`].

use vstd::prelude::*;
use crate::conditions::expr::{CmpOp, Expr, ExprV, lookback_checked, lookback_value};
use crate::conditions::grammar::{
    PErr, p_or, p_and, p_not, p_atom, or_tail, and_tail, is_word, lemma_skip_ws, lemma_skip_ws_idem,
    lemma_ident_end, lb_call, name_call, exit_call, count_call, name_form, count_form, Step, asc, byte_at, digits_end, expect_char, expected_msg, func_call, ident_byte, ident_end,
    lb_end, op_and_int, paren_name, paren_name_lb, read_ident, read_int, read_lookback, read_op,
    skip_ws, ws_byte, parse_spec, lemma_parse_spec_total,
};
use vstd::utf8::{
    valid_utf8, is_char_boundary, length_of_first_scalar, pop_first_scalar, encode_utf8_valid_utf8,
    encode_utf8_decode_utf8, is_char_boundary_iff_not_is_continuation_byte,
};
use crate::text::{concat3, push_char, lower_range, vec_eq_lit, lower_seq};
use vstd::string::StringSliceAdditionalSpecFns;

verus! {

/// Error returned by [`parse`].
#[derive(Debug, PartialEq, Eq)]
pub enum ParseError {
    /// Unexpected token or end of input.
    Unexpected {
        /// Byte position in the input.
        pos: usize,
        /// Description of what went wrong.
        msg: String,
    },
    /// Unrecognized function name.
    UnknownFunction {
        /// The bad function name.
        name: String,
    },
    /// Malformed look-back operand.
    BadLookback {
        /// Byte position.
        pos: usize,
        /// Raw substring.
        raw: String,
    },
}

impl View for ParseError {
    type V = PErr;

    open spec fn view(&self) -> PErr {
        match self {
            ParseError::Unexpected { pos, msg } => PErr::Unexpected { pos: *pos as int, msg: msg@ },
            ParseError::UnknownFunction { name } => PErr::UnknownFunction { name: name@ },
            ParseError::BadLookback { pos, raw } => PErr::BadLookback { pos: *pos as int, raw: raw@ },
        }
    }
}

/// `r` is what `s` describes, the reader ending at `end`.
pub open spec fn follows<T, U: View<V = T>>(r: Result<U, ParseError>, s: Step<T>, end: int) -> bool {
    match s {
        Step::Done(v, q) => r is Ok && r->Ok_0@ == v && end == q,
        Step::Fail(e) => r is Err && r->Err_0@ == e,
        Step::Abort => false,
    }
}

/// Like [`follows`] for readers whose value is `()`.
pub open spec fn follows_unit(r: Result<(), ParseError>, s: Step<()>, end: int) -> bool {
    match s {
        Step::Done(_, q) => r is Ok && end == q,
        Step::Fail(e) => r is Err && r->Err_0@ == e,
        Step::Abort => false,
    }
}

/// Like [`follows`] for plain values.
pub open spec fn follows_val<T>(r: Result<T, ParseError>, s: Step<T>, end: int) -> bool {
    match s {
        Step::Done(v, q) => r is Ok && r->Ok_0 == v && end == q,
        Step::Fail(e) => r is Err && r->Err_0@ == e,
        Step::Abort => false,
    }
}

/// Like [`follows`] for `(name, look-back)` pairs.
pub open spec fn follows_name_lb(
    r: Result<(String, Option<u64>), ParseError>,
    s: Step<(Seq<char>, Option<u64>)>,
    end: int,
) -> bool {
    match s {
        Step::Done(v, q) => r is Ok && r->Ok_0.0@ == v.0 && r->Ok_0.1 == v.1 && end == q,
        Step::Fail(e) => r is Err && r->Err_0@ == e,
        Step::Abort => false,
    }
}

/// The byte before `p` is ASCII: `p` ends a token of the grammar.
spec fn ends_ascii(b: Seq<u8>, p: int) -> bool {
    0 < p <= b.len() && b[p - 1] < 128
}

/// In valid UTF-8, the position just after an ASCII byte that starts a
/// character is again a character boundary.
proof fn lemma_boundary_after_ascii(bytes: Seq<u8>, i: int)
    requires
        valid_utf8(bytes),
        0 <= i < bytes.len(),
        is_char_boundary(bytes, i),
        bytes[i] < 128,
    ensures
        is_char_boundary(bytes, i + 1),
    decreases bytes.len(),
{
    let l = length_of_first_scalar(bytes);
    let pop = pop_first_scalar(bytes);
    assert(1 <= l <= bytes.len());
    assert(pop.len() == bytes.len() - l);
    if i == 0 {
        assert(l == 1);
        assert(is_char_boundary(pop, 0));
    } else {
        assert(is_char_boundary(pop, i - l));
        assert(pop[i - l] == bytes[i]);
        lemma_boundary_after_ascii(pop, i - l);
    }
}

/// `r` is the result that `s` describes for a whole input.
pub open spec fn parsed_as(r: Result<Expr, ParseError>, s: Step<ExprV>) -> bool {
    match s {
        Step::Done(v, _) => r is Ok && r->Ok_0@ == v,
        Step::Fail(e) => r is Err && r->Err_0@ == e,
        Step::Abort => false,
    }
}

struct Parser<'a> {
    text: &'a str,
    input: &'a [u8],
    pos: usize,
}

/// `String` of the ASCII bytes `b[lo..hi]`.
fn ascii_string(b: &[u8], lo: usize, hi: usize) -> (s: String)
    requires
        lo <= hi <= b.len(),
    ensures
        s@ == asc(b@.subrange(lo as int, hi as int)),
{
    let mut s = String::new();
    let mut i = lo;
    while i < hi
        invariant
            lo <= i <= hi <= b.len(),
            s@ == asc(b@.subrange(lo as int, i as int)),
        decreases hi - i,
    {
        push_char(&mut s, b[i] as char);
        i = i + 1;
        assert(s@ =~= asc(b@.subrange(lo as int, i as int)));
    }
    s
}

fn is_ws_byte(x: u8) -> (r: bool)
    ensures
        r == ws_byte(x),
{
    x == 32 || x == 9 || x == 10 || x == 12 || x == 13
}

fn is_ident_byte(x: u8) -> (r: bool)
    ensures
        r == ident_byte(x),
{
    (97 <= x && x <= 122) || (65 <= x && x <= 90) || (48 <= x && x <= 57) || x == 95 || x == 45
        || x == 46
}

fn unexpected(pos: usize, msg: &str) -> (e: ParseError)
    ensures
        e@ == (PErr::Unexpected { pos: pos as int, msg: msg@ }),
{
    ParseError::Unexpected { pos, msg: crate::text::string_of_str(msg) }
}

impl<'a> Parser<'a> {
    spec fn b(&self) -> Seq<u8> {
        self.input@
    }

    spec fn wf(&self) -> bool {
        &&& self.input@ == self.text.spec_bytes()
        &&& self.input@.len() == self.input.len()
        &&& self.pos <= self.input@.len()
    }

    spec fn same_input(&self, other: &Self) -> bool {
        self.text == other.text && self.input == other.input
    }

    fn new(input: &'a str) -> (p: Self)
        ensures
            p.wf(),
            p.pos == 0,
            p.text == input,
    {
        Parser { text: input, input: input.as_bytes(), pos: 0 }
    }

    fn skip_ws(&mut self)
        requires
            old(self).wf(),
        ensures
            final(self).wf(),
            final(self).same_input(old(self)),
            final(self).pos == skip_ws(old(self).b(), old(self).pos as int),
    {
        while self.pos < self.input.len() && is_ws_byte(self.input[self.pos])
            invariant
                self.wf(),
                self.same_input(old(self)),
                skip_ws(self.b(), old(self).pos as int) == skip_ws(self.b(), self.pos as int),
            decreases self.input.len() - self.pos,
        {
            self.pos = self.pos + 1;
        }
    }

    fn peek_is(&self, c: u8) -> (r: bool)
        requires
            self.wf(),
        ensures
            r == byte_at(self.b(), self.pos as int, c),
    {
        self.pos < self.input.len() && self.input[self.pos] == c
    }

    fn expect_char(&mut self, expected: u8) -> (r: Result<(), ParseError>)
        requires
            old(self).wf(),
            expected < 128,
        ensures
            final(self).wf(),
            final(self).same_input(old(self)),
            r is Ok ==> ends_ascii(final(self).b(), final(self).pos as int),
            follows_unit(r, expect_char(old(self).b(), old(self).pos as int, expected), final(self).pos as int),
    {
        self.skip_ws();
        if self.pos < self.input.len() {
            let c = self.input[self.pos];
            self.pos = self.pos + 1;
            if c == expected {
                return Ok(());
            }
        }
        let msg = concat3("expected '", &vec![expected as char], "'");
        assert(msg@ =~= expected_msg(expected));
        Err(ParseError::Unexpected { pos: self.pos, msg })
    }

    fn read_ident(&mut self) -> (s: String)
        requires
            old(self).wf(),
        ensures
            final(self).wf(),
            final(self).same_input(old(self)),
            s@ == read_ident(old(self).b(), old(self).pos as int).0,
            final(self).pos == read_ident(old(self).b(), old(self).pos as int).1,
    {
        self.skip_ws();
        let start = self.pos;
        while self.pos < self.input.len() && is_ident_byte(self.input[self.pos])
            invariant
                self.wf(),
                self.same_input(old(self)),
                start <= self.pos,
                ident_end(self.b(), start as int) == ident_end(self.b(), self.pos as int),
            decreases self.input.len() - self.pos,
        {
            self.pos = self.pos + 1;
        }
        ascii_string(self.input, start, self.pos)
    }

    fn read_lookback(&mut self) -> (r: Result<u64, ParseError>)
        requires
            old(self).wf(),
            !(read_lookback(old(self).b(), old(self).pos as int) is Abort),
        ensures
            final(self).wf(),
            final(self).same_input(old(self)),
            follows_val(r, read_lookback(old(self).b(), old(self).pos as int), final(self).pos as int),
    {
        self.skip_ws();
        let start = self.pos;
        while self.pos < self.input.len() && (self.input[self.pos] == 46 || (48 <= self.input[self.pos]
            && self.input[self.pos] <= 57))
            invariant
                self.wf(),
                self.same_input(old(self)),
                start <= self.pos,
                lb_end(self.b(), start as int) == lb_end(self.b(), self.pos as int),
            decreases self.input.len() - self.pos,
        {
            self.pos = self.pos + 1;
        }
        let raw = ascii_string(self.input, start, self.pos);
        match lookback_checked(raw.as_str()) {
            Ok(Some(v)) => Ok(v),
            _ => Err(ParseError::BadLookback { pos: start, raw }),
        }
    }

    fn paren_name_lb(&mut self) -> (r: Result<(String, Option<u64>), ParseError>)
        requires
            old(self).wf(),
            !(paren_name_lb(old(self).b(), old(self).pos as int) is Abort),
        ensures
            final(self).wf(),
            final(self).same_input(old(self)),
            r is Ok ==> ends_ascii(final(self).b(), final(self).pos as int),
            follows_name_lb(r, paren_name_lb(old(self).b(), old(self).pos as int), final(self).pos as int),
    {
        self.expect_char(40)?;
        let name = self.read_ident();
        if name.as_str().is_empty() {
            return Err(unexpected(self.pos, "expected job name"));
        }
        self.skip_ws();
        let lb = if self.peek_is(44) {
            self.pos = self.pos + 1;
            Some(self.read_lookback()?)
        } else {
            None
        };
        self.skip_ws();
        self.expect_char(41)?;
        Ok((name, lb))
    }

    fn paren_name(&mut self) -> (r: Result<String, ParseError>)
        requires
            old(self).wf(),
            !(paren_name(old(self).b(), old(self).pos as int) is Abort),
        ensures
            final(self).wf(),
            final(self).same_input(old(self)),
            r is Ok ==> ends_ascii(final(self).b(), final(self).pos as int),
            follows(r, paren_name(old(self).b(), old(self).pos as int), final(self).pos as int),
    {
        let (n, lb) = self.paren_name_lb()?;
        if lb.is_some() {
            return Err(unexpected(self.pos, "look-back operand not supported for this function"));
        }
        Ok(n)
    }

    fn starts_with2(&self, x: u8, y: u8) -> (r: bool)
        requires
            self.wf(),
        ensures
            r == (byte_at(self.b(), self.pos as int, x) && byte_at(self.b(), self.pos + 1, y)),
    {
        self.input.len() - self.pos >= 2 && self.input[self.pos] == x && self.input[self.pos + 1] == y
    }

    fn try_read_op(&mut self) -> (r: Option<CmpOp>)
        requires
            old(self).wf(),
        ensures
            final(self).wf(),
            final(self).same_input(old(self)),
            r == read_op(old(self).b(), old(self).pos as int).0,
            final(self).pos == read_op(old(self).b(), old(self).pos as int).1,
    {
        self.skip_ws();
        if self.starts_with2(33, 61) {
            self.pos = self.pos + 2;
            Some(CmpOp::Ne)
        } else if self.starts_with2(60, 61) {
            self.pos = self.pos + 2;
            Some(CmpOp::Le)
        } else if self.starts_with2(62, 61) {
            self.pos = self.pos + 2;
            Some(CmpOp::Ge)
        } else if self.peek_is(61) {
            self.pos = self.pos + 1;
            Some(CmpOp::Eq)
        } else if self.peek_is(60) {
            self.pos = self.pos + 1;
            Some(CmpOp::Lt)
        } else if self.peek_is(62) {
            self.pos = self.pos + 1;
            Some(CmpOp::Gt)
        } else {
            None
        }
    }

    fn read_int(&mut self) -> (r: Result<i32, ParseError>)
        requires
            old(self).wf(),
        ensures
            final(self).wf(),
            final(self).same_input(old(self)),
            r is Ok ==> ends_ascii(final(self).b(), final(self).pos as int),
            follows_val(r, read_int(old(self).b(), old(self).pos as int), final(self).pos as int),
    {
        self.skip_ws();
        let negative = if self.peek_is(45) {
            self.pos = self.pos + 1;
            true
        } else {
            false
        };
        let start = self.pos;
        while self.pos < self.input.len() && 48 <= self.input[self.pos] && self.input[self.pos]
            <= 57
            invariant
                self.wf(),
                self.same_input(old(self)),
                start <= self.pos,
                digits_end(self.b(), start as int) == digits_end(self.b(), self.pos as int),
            decreases self.input.len() - self.pos,
        {
            self.pos = self.pos + 1;
        }
        let s = ascii_string(self.input, start, self.pos);
        let ghost bb = old(self).b();
        let ghost q = skip_ws(bb, old(self).pos as int);
        assert(negative == byte_at(bb, q, 45));
        assert(start == (if negative { q + 1 } else { q }));
        assert(self.pos == digits_end(bb, start as int));
        if s.as_str().is_empty() {
            return Err(unexpected(self.pos, "expected integer"));
        }
        let v = crate::text::chars_vec(s.as_str());
        assert(v@.subrange(0, v@.len() as int) =~= v@);
        match crate::text::parse_unsigned_range(&v, 0, v.len(), 0x7fff_ffff) {
            None => Err(unexpected(self.pos, "integer overflow")),
            Some(n) => {
                let n = n as i32;
                Ok(
                    if negative {
                        -n
                    } else {
                        n
                    },
                )
            },
        }
    }

    fn op_and_int(&mut self, after: &str) -> (r: Result<(CmpOp, i32), ParseError>)
        requires
            old(self).wf(),
        ensures
            final(self).wf(),
            final(self).same_input(old(self)),
            r is Ok ==> ends_ascii(final(self).b(), final(self).pos as int),
            follows_val(r, op_and_int(old(self).b(), old(self).pos as int, after@), final(self).pos as int),
    {
        match self.try_read_op() {
            None => {
                let mut msg = crate::text::string_of_str("expected comparison operator after ");
                msg.append(after);
                msg.append("(...)");
                Err(ParseError::Unexpected { pos: self.pos, msg })
            },
            Some(op) => {
                let n = self.read_int()?;
                Ok((op, n))
            },
        }
    }

    fn lb_call(&mut self, k: u8) -> (r: Result<Expr, ParseError>)
        requires
            old(self).wf(),
            k <= 2,
            !(lb_call(old(self).b(), old(self).pos as int, k as int) is Abort),
        ensures
            final(self).wf(),
            final(self).same_input(old(self)),
            r is Ok ==> ends_ascii(final(self).b(), final(self).pos as int),
            follows(r, lb_call(old(self).b(), old(self).pos as int, k as int), final(self).pos as int),
    {
        let (n, lb) = self.paren_name_lb()?;
        if k == 0 {
            Ok(Expr::Success(n, lb))
        } else if k == 1 {
            Ok(Expr::Failure(n, lb))
        } else {
            Ok(Expr::Done(n, lb))
        }
    }

    fn name_call(&mut self, fl: &Vec<char>) -> (r: Result<Expr, ParseError>)
        requires
            old(self).wf(),
            name_form(fl@),
            !(name_call(old(self).b(), old(self).pos as int, fl@) is Abort),
        ensures
            final(self).wf(),
            final(self).same_input(old(self)),
            r is Ok ==> ends_ascii(final(self).b(), final(self).pos as int),
            follows(r, name_call(old(self).b(), old(self).pos as int, fl@), final(self).pos as int),
    {
        let n = self.paren_name()?;
        if vec_eq_lit(fl, "running") || vec_eq_lit(fl, "r") {
            Ok(Expr::Running(n))
        } else if vec_eq_lit(fl, "value") {
            Ok(Expr::Value(n))
        } else {
            Ok(Expr::NotRunning(n))
        }
    }

    fn exit_call(&mut self) -> (r: Result<Expr, ParseError>)
        requires
            old(self).wf(),
            !(exit_call(old(self).b(), old(self).pos as int) is Abort),
        ensures
            final(self).wf(),
            final(self).same_input(old(self)),
            r is Ok ==> ends_ascii(final(self).b(), final(self).pos as int),
            follows(r, exit_call(old(self).b(), old(self).pos as int), final(self).pos as int),
    {
        let job = self.paren_name()?;
        let (op, n) = self.op_and_int("exitcode")?;
        Ok(Expr::ExitCode(job, op, n))
    }

    fn count_call(&mut self, fl: &Vec<char>) -> (r: Result<Expr, ParseError>)
        requires
            old(self).wf(),
            count_form(fl@) is Some,
            !(count_call(old(self).b(), old(self).pos as int, fl@) is Abort),
        ensures
            final(self).wf(),
            final(self).same_input(old(self)),
            r is Ok ==> ends_ascii(final(self).b(), final(self).pos as int),
            follows(r, count_call(old(self).b(), old(self).pos as int, fl@), final(self).pos as int),
    {
        let (job, lb) = self.paren_name_lb()?;
        let fl_s = crate::text::string_of(fl, 0, fl.len());
        assert(fl@.subrange(0, fl@.len() as int) =~= fl@);
        let (op, n) = self.op_and_int(fl_s.as_str())?;
        if vec_eq_lit(fl, "numrun") {
            Ok(Expr::NumRun(job, op, n, lb))
        } else if vec_eq_lit(fl, "numsuc") {
            Ok(Expr::NumSuc(job, op, n, lb))
        } else {
            Ok(Expr::NumFail(job, op, n, lb))
        }
    }

    fn parse_func_call(&mut self, func: &str) -> (r: Result<Expr, ParseError>)
        requires
            old(self).wf(),
            !(func_call(old(self).b(), old(self).pos as int, func@) is Abort),
        ensures
            final(self).wf(),
            final(self).same_input(old(self)),
            r is Ok ==> ends_ascii(final(self).b(), final(self).pos as int),
            follows(r, func_call(old(self).b(), old(self).pos as int, func@), final(self).pos as int),
    {
        let fv = crate::text::chars_vec(func);
        let fl = lower_range(&fv, 0, fv.len());
        assert(fv@.subrange(0, fv@.len() as int) =~= fv@);
        if vec_eq_lit(&fl, "success") || vec_eq_lit(&fl, "s") {
            self.lb_call(0)
        } else if vec_eq_lit(&fl, "failure") || vec_eq_lit(&fl, "f") {
            self.lb_call(1)
        } else if vec_eq_lit(&fl, "done") || vec_eq_lit(&fl, "d") {
            self.lb_call(2)
        } else if vec_eq_lit(&fl, "running") || vec_eq_lit(&fl, "r") || vec_eq_lit(&fl, "notrunning")
            || vec_eq_lit(&fl, "n") || vec_eq_lit(&fl, "value") {
            self.name_call(&fl)
        } else if vec_eq_lit(&fl, "exitcode") {
            self.exit_call()
        } else if vec_eq_lit(&fl, "numrun") || vec_eq_lit(&fl, "numsuc") || vec_eq_lit(
            &fl,
            "numfail",
        ) {
            self.count_call(&fl)
        } else {
            Err(ParseError::UnknownFunction { name: crate::text::string_of_str(func) })
        }
    }

    fn is_keyword(ident: &String, w: &str) -> (r: bool)
        ensures
            r == is_word(ident@, w@),
    {
        let v = crate::text::chars_vec(ident.as_str());
        let l = lower_range(&v, 0, v.len());
        assert(v@.subrange(0, v@.len() as int) =~= v@);
        vec_eq_lit(&l, w)
    }

    fn parse_atom(&mut self) -> (r: Result<Expr, ParseError>)
        requires
            old(self).wf(),
            !(p_atom(old(self).b(), old(self).pos as int) is Abort),
        ensures
            final(self).wf(),
            final(self).same_input(old(self)),
            r is Ok ==> ends_ascii(final(self).b(), final(self).pos as int),
            follows(r, p_atom(old(self).b(), old(self).pos as int), final(self).pos as int),
        decreases old(self).input.len() - old(self).pos, 1nat,
    {
        let ghost bb = self.b();
        proof {
            lemma_skip_ws(bb, old(self).pos as int);
        }
        self.skip_ws();
        let ghost q = self.pos as int;
        if self.peek_is(40) {
            self.pos = self.pos + 1;
            let inner = self.parse_or()?;
            self.expect_char(41)?;
            return Ok(inner);
        }
        proof {
            lemma_skip_ws_idem(bb, old(self).pos as int);
        }
        let ident = self.read_ident();
        if ident.as_str().is_empty() {
            return Err(unexpected(self.pos, "expected expression"));
        }
        self.skip_ws();
        if self.peek_is(40) {
            self.parse_func_call(ident.as_str())
        } else {
            let iv = crate::text::chars_vec(ident.as_str());
            let msg = concat3("unexpected identifier '", &iv, "' without call syntax");
            Err(ParseError::Unexpected { pos: self.pos, msg })
        }
    }

    fn parse_not(&mut self) -> (r: Result<Expr, ParseError>)
        requires
            old(self).wf(),
            !(p_not(old(self).b(), old(self).pos as int) is Abort),
        ensures
            final(self).wf(),
            final(self).same_input(old(self)),
            r is Ok ==> ends_ascii(final(self).b(), final(self).pos as int),
            follows(r, p_not(old(self).b(), old(self).pos as int), final(self).pos as int),
        decreases old(self).input.len() - old(self).pos, 2nat,
    {
        let ghost bb = self.b();
        self.skip_ws();
        let saved = self.pos;
        proof {
            lemma_skip_ws(bb, old(self).pos as int);
            lemma_skip_ws_idem(bb, old(self).pos as int);
        }
        let ident = self.read_ident();
        if Self::is_keyword(&ident, "not") {
            proof {
                lemma_ident_end(bb, saved as int);
                reveal_strlit("not");
                assert(lower_seq(ident@).len() == ident@.len());
                lemma_skip_ws(bb, skip_ws(bb, saved as int));
                lemma_skip_ws(bb, self.pos as int);
                assert(self.pos > saved);
            }
            self.skip_ws();
            if !self.peek_is(40) {
                let inner = self.parse_not()?;
                return Ok(Expr::Not(Box::new(inner)));
            }
        }
        self.pos = saved;
        self.parse_atom()
    }

    fn parse_and(&mut self) -> (r: Result<Expr, ParseError>)
        requires
            old(self).wf(),
            !(p_and(old(self).b(), old(self).pos as int) is Abort),
        ensures
            final(self).wf(),
            final(self).same_input(old(self)),
            r is Ok ==> ends_ascii(final(self).b(), final(self).pos as int),
            follows(r, p_and(old(self).b(), old(self).pos as int), final(self).pos as int),
        decreases old(self).input.len() - old(self).pos, 4nat,
    {
        let ghost bb = self.b();
        let ghost p0 = self.pos as int;
        let mut left = self.parse_not()?;
        loop
            invariant
                self.wf(),
                self.same_input(old(self)),
                bb == self.b(),
                p0 == old(self).pos as int,
                p0 <= self.pos,
                ends_ascii(bb, self.pos as int),
                p_and(bb, p0) == and_tail(bb, self.pos as int, left@),
                !(p_and(bb, p0) is Abort),
            ensures
                self.wf(),
                self.same_input(old(self)),
                ends_ascii(bb, self.pos as int),
                p_and(bb, p0) == Step::Done(left@, self.pos as int),
            decreases self.input.len() - self.pos,
        {
            let saved = self.pos;
            self.skip_ws();
            proof {
                lemma_skip_ws_idem(bb, saved as int);
                lemma_skip_ws(bb, saved as int);
                lemma_ident_end(bb, skip_ws(bb, saved as int));
            }
            let tok = self.read_ident();
            if Self::is_keyword(&tok, "and") {
                proof {
                    reveal_strlit("and");
                    assert(lower_seq(tok@).len() == tok@.len());
                }
                let right = self.parse_not()?;
                left = Expr::And(Box::new(left), Box::new(right));
            } else {
                self.pos = saved;
                break ;
            }
        }
        Ok(left)
    }

    fn parse_or(&mut self) -> (r: Result<Expr, ParseError>)
        requires
            old(self).wf(),
            !(p_or(old(self).b(), old(self).pos as int) is Abort),
        ensures
            final(self).wf(),
            final(self).same_input(old(self)),
            r is Ok ==> ends_ascii(final(self).b(), final(self).pos as int),
            follows(r, p_or(old(self).b(), old(self).pos as int), final(self).pos as int),
        decreases old(self).input.len() - old(self).pos, 6nat,
    {
        let ghost bb = self.b();
        let ghost p0 = self.pos as int;
        let mut left = self.parse_and()?;
        loop
            invariant
                self.wf(),
                self.same_input(old(self)),
                bb == self.b(),
                p0 == old(self).pos as int,
                p0 <= self.pos,
                ends_ascii(bb, self.pos as int),
                p_or(bb, p0) == or_tail(bb, self.pos as int, left@),
                !(p_or(bb, p0) is Abort),
            ensures
                self.wf(),
                self.same_input(old(self)),
                ends_ascii(bb, self.pos as int),
                p_or(bb, p0) == Step::Done(left@, self.pos as int),
            decreases self.input.len() - self.pos,
        {
            let saved = self.pos;
            self.skip_ws();
            proof {
                lemma_skip_ws_idem(bb, saved as int);
                lemma_skip_ws(bb, saved as int);
                lemma_ident_end(bb, skip_ws(bb, saved as int));
            }
            let tok = self.read_ident();
            if Self::is_keyword(&tok, "or") {
                proof {
                    reveal_strlit("or");
                    assert(lower_seq(tok@).len() == tok@.len());
                }
                let right = self.parse_and()?;
                left = Expr::Or(Box::new(left), Box::new(right));
            } else {
                self.pos = saved;
                break ;
            }
        }
        Ok(left)
    }

    fn parse_expr(&mut self) -> (r: Result<Expr, ParseError>)
        requires
            old(self).wf(),
            old(self).pos == 0,
            !(parse_spec(old(self).b()) is Abort),
        ensures
            parsed_as(r, parse_spec(old(self).b())),
    {
        let ghost bb = self.b();
        let expr = self.parse_or()?;
        let ghost p1 = self.pos as int;
        self.skip_ws();
        if self.pos != self.input.len() {
            let ghost q = self.pos as int;
            proof {
                lemma_skip_ws(bb, p1);
                assert(bb[q - 1] < 128) by {
                    if q > p1 {
                        assert(ws_byte(bb[q - 1]));
                    }
                }
                encode_utf8_valid_utf8(self.text@);
                is_char_boundary_iff_not_is_continuation_byte(bb, q - 1);
                lemma_boundary_after_ascii(bb, q - 1);
            }
            let (_, rest) = self.text.split_at(self.pos);
            proof {
                encode_utf8_decode_utf8(rest@);
            }
            let mut msg = crate::text::string_of_str("trailing input: '");
            msg.append(rest);
            msg.append("'");
            return Err(ParseError::Unexpected { pos: self.pos, msg });
        }
        Ok(expr)
    }
}

/// The parse of `b` stops at a look-back operand whose second count does not
/// fit in `u64`.
pub open spec fn lookback_overflows(b: Seq<u8>) -> bool {
    parse_spec(b) matches Step::Fail(PErr::BadLookback { raw, .. }) && lookback_value(raw) is Err
}

/// Parses a condition expression.
///
/// The result is what [`parse_spec`] describes for the input's bytes. The one
/// input left out is one whose look-back second count does not fit in `u64`;
/// [`parse_checked`] takes every input.
pub fn parse(input: &str) -> (r: Result<Expr, ParseError>)
    requires
        !lookback_overflows(input.spec_bytes()),
    ensures
        parsed_as(r, parse_spec(input.spec_bytes())),
{
    parse_checked(input)
}

/// Parses a condition expression, taking every input: a look-back operand
/// whose second count does not fit in `u64` gives [`ParseError::BadLookback`]
/// with the operand's position and text.
pub fn parse_checked(input: &str) -> (r: Result<Expr, ParseError>)
    ensures
        parsed_as(r, parse_spec(input.spec_bytes())),
        lookback_overflows(input.spec_bytes()) ==> r matches Err(ParseError::BadLookback { .. }),
{
    proof {
        lemma_parse_spec_total(input.spec_bytes());
    }
    let mut p = Parser::new(input);
    p.parse_expr()
}

} // verus!
