//! The text form of an expression reads back as the same expression.
//!
//! Every expression built from names of identifier characters, look-backs
//! in whole minutes and comparison operands other than `i32::MIN`, without
//! negation, renders to a text that the parser reads back unchanged. A
//! negated call written `not X` reads back with `not` binding tighter than
//! `and` and `or`.

use vstd::prelude::*;
use crate::conditions::expr::{
    CmpOp, ExprV, dec, digit_char, int_text, lb_text, lookback_value, op_text, pad2, render,
};
use crate::conditions::grammar::{
    and_tail, asc, byte_at, count_call, count_form, count_node, digit_byte, digits_end, exit_call,
    expect_char, func_call, ident_byte, ident_end, is_word, lb_byte, lb_call, lb_call_form,
    lb_call_node, lb_end, name_call, name_form, name_node, op_and_int, or_tail, p_and, p_atom,
    p_not, p_or, paren_name, paren_name_lb, parse_spec, read_ident, read_int, read_lookback,
    read_op, skip_ws, ws_byte, Step,
};
use crate::text::{all_digits, digits_value, find_char, is_digit, lower, lower_seq, name_char, parse_unsigned};

verus! {

/// The characters of `s` stand, as bytes, at position `p` of `b`.
pub open spec fn at(b: Seq<u8>, p: int, s: Seq<char>) -> bool {
    &&& 0 <= p
    &&& p + s.len() <= b.len()
    &&& forall|i: int| 0 <= i < s.len() ==> b[p + i] == #[trigger] s[i] as u8
}

proof fn lemma_at_concat(b: Seq<u8>, p: int, s: Seq<char>, t: Seq<char>)
    requires
        at(b, p, s + t),
    ensures
        at(b, p, s),
        at(b, p + s.len(), t),
{
    assert forall|i: int| 0 <= i < s.len() implies b[p + i] == #[trigger] s[i] as u8 by {
        assert((s + t)[i] == s[i]);
    }
    assert forall|i: int| 0 <= i < t.len() implies b[p + s.len() + i] == #[trigger] t[i] as u8 by {
        assert((s + t)[s.len() + i] == t[i]);
    }
}

/// All characters are ASCII.
pub open spec fn ascii_text(s: Seq<char>) -> bool {
    forall|i: int| 0 <= i < s.len() ==> (#[trigger] s[i] as u32) < 128
}

proof fn lemma_asc_at(b: Seq<u8>, p: int, s: Seq<char>)
    requires
        at(b, p, s),
        ascii_text(s),
    ensures
        asc(b.subrange(p, p + s.len())) == s,
{
    let sub = b.subrange(p, p + s.len());
    assert forall|i: int| 0 <= i < s.len() implies asc(sub)[i] == s[i] by {
        assert(sub[i] == b[p + i]);
        assert(b[p + i] == s[i] as u8);
        lemma_ascii_cast(s[i]);
    }
    assert(asc(sub) =~= s);
}

proof fn lemma_ident_run(b: Seq<u8>, p: int, q: int)
    requires
        0 <= p <= q <= b.len(),
        forall|i: int| p <= i < q ==> ident_byte(#[trigger] b[i]),
        q < b.len() ==> !ident_byte(b[q]),
    ensures
        ident_end(b, p) == q,
    decreases q - p,
{
    if p < q {
        lemma_ident_run(b, p + 1, q);
    }
}

proof fn lemma_digit_run(b: Seq<u8>, p: int, q: int)
    requires
        0 <= p <= q <= b.len(),
        forall|i: int| p <= i < q ==> digit_byte(#[trigger] b[i]),
        q < b.len() ==> !digit_byte(b[q]),
    ensures
        digits_end(b, p) == q,
    decreases q - p,
{
    if p < q {
        lemma_digit_run(b, p + 1, q);
    }
}

proof fn lemma_lb_run(b: Seq<u8>, p: int, q: int)
    requires
        0 <= p <= q <= b.len(),
        forall|i: int| p <= i < q ==> lb_byte(#[trigger] b[i]),
        q < b.len() ==> !lb_byte(b[q]),
    ensures
        lb_end(b, p) == q,
    decreases q - p,
{
    if p < q {
        lemma_lb_run(b, p + 1, q);
    }
}

proof fn lemma_ascii_cast(c: char)
    requires
        (c as u32) < 128,
    ensures
        ((c as u8) as char) == c,
{
}

/// Decimal text reads back as its value.
proof fn lemma_dec_value(n: nat)
    ensures
        all_digits(dec(n)),
        digits_value(dec(n)) == n,
        dec(n).len() >= 1,
        ascii_text(dec(n)),
    decreases n,
{
    if n < 10 {
        let c = digit_char(n);
        assert(seq![c].drop_last() =~= Seq::<char>::empty());
        assert(digits_value(Seq::<char>::empty()) == 0);
        assert((c as u32) == n + 48);
        assert(digits_value(seq![c]) == digits_value(Seq::<char>::empty()) * 10 + ((c as u32) - ('0' as u32)) as nat);
    } else {
        lemma_dec_value(n / 10);
        let s = dec(n / 10);
        let c = digit_char(n % 10);
        assert(s.push(c).drop_last() =~= s);
        assert(dec(n) == s.push(c));
        assert((c as u32) == n % 10 + 48);
        assert(digits_value(s.push(c)) == digits_value(s) * 10 + ((c as u32) - ('0' as u32)) as nat);
        assert((n / 10) * 10 + n % 10 == n);
        assert(digits_value(s) == n / 10);
        assert(((c as u32) - ('0' as u32)) as nat == n % 10);
        assert(digits_value(dec(n)) == (n / 10) * 10 + n % 10);
        assert(all_digits(s.push(c))) by {
            assert forall|i: int| 0 <= i < s.push(c).len() implies is_digit(#[trigger] s.push(c)[i]) by {
                if i < s.len() {
                    assert(s.push(c)[i] == s[i]);
                }
            }
        }
        assert(ascii_text(s.push(c))) by {
            assert forall|i: int| 0 <= i < s.push(c).len() implies (#[trigger] s.push(c)[i] as u32) < 128 by {
                if i < s.len() {
                    assert(s.push(c)[i] == s[i]);
                }
            }
        }
    }
}

/// Zero-padded two-digit text reads back as its value.
proof fn lemma_pad2_value(n: nat)
    ensures
        all_digits(pad2(n)),
        digits_value(pad2(n)) == n,
        pad2(n).len() >= 1,
        ascii_text(pad2(n)),
{
    if n < 10 {
        let s = seq!['0'].push(digit_char(n));
        assert(s.drop_last() =~= seq!['0']);
        assert(seq!['0'].drop_last() =~= Seq::<char>::empty());
        assert((digit_char(n) as u32) == n + 48);
        assert(digits_value(Seq::<char>::empty()) == 0);
        assert(digits_value(seq!['0']) == digits_value(Seq::<char>::empty()) * 10 + (('0' as u32) - ('0' as u32)) as nat);
        assert(digits_value(seq!['0']) == 0);
        assert(digits_value(s) == digits_value(seq!['0']) * 10 + ((digit_char(n) as u32) - ('0' as u32)) as nat);
    } else {
        lemma_dec_value(n);
    }
}

/// Digits without a sign read back through `parse_unsigned` as their value.
proof fn lemma_parse_digits(s: Seq<char>, n: nat, max: nat)
    requires
        s.len() >= 1,
        all_digits(s),
        digits_value(s) == n,
        n <= max,
    ensures
        parse_unsigned(s, max) == Some(n),
{
    assert(is_digit(s[0]));
}

/// Characters of a look-back operand: digits and `.`.
pub open spec fn lb_chars(s: Seq<char>) -> bool {
    forall|i: int| 0 <= i < s.len() ==> is_digit(#[trigger] s[i]) || s[i] == '.'
}

/// The `HH.MM` operand written for a look-back of `v` seconds.
pub open spec fn lb_operand(v: u64) -> Seq<char> {
    pad2((v / 60 / 60) as nat) + "."@ + pad2(((v / 60) % 60) as nat)
}

proof fn lemma_lookback_text(v: u64)
    requires
        v % 60 == 0,
    ensures
        lb_text(Some(v)) == ", "@ + lb_operand(v),
        ascii_text(lb_operand(v)),
        lb_chars(lb_operand(v)),
        lb_operand(v).len() >= 3,
        lookback_value(lb_operand(v)) == Ok::<Option<u64>, ()>(Some(v)),
{
    reveal_strlit(".");
    reveal_strlit(", ");
    reveal(lookback_value);
    let h = (v / 60 / 60) as nat;
    let m = ((v / 60) % 60) as nat;
    let ph = pad2(h);
    let pm = pad2(m);
    lemma_pad2_value(h);
    lemma_pad2_value(m);
    let l = lb_operand(v);
    assert(l =~= ph + seq!['.'] + pm);
    let k = ph.len() as int;
    assert(l[k] == '.');
    assert forall|i: int| 0 <= i < l.len() implies (#[trigger] l[i] as u32) < 128 by {
        if i < k {
            assert(l[i] == ph[i]);
        } else if i > k {
            assert(l[i] == pm[i - k - 1]);
        }
    }
    assert forall|i: int| 0 <= i < l.len() implies is_digit(#[trigger] l[i]) || l[i] == '.' by {
        if i < k {
            assert(l[i] == ph[i]);
        } else if i > k {
            assert(l[i] == pm[i - k - 1]);
        }
    }
    assert(forall|j: int| 0 <= j < k ==> l[j] != '.') by {
        assert forall|j: int| 0 <= j < k implies l[j] != '.' by {
            assert(l[j] == ph[j]);
            assert(is_digit(ph[j]));
        }
    }
    assert(0 <= k < l.len() && l[k] == '.' && forall|j: int| 0 <= j < k ==> l[j] != '.');
    let f = choose|i: int| 0 <= i < l.len() && l[i] == '.' && forall|j: int| 0 <= j < i ==> l[j] != '.';
    assert(f == k) by {
        if f > k {
        } else if f < k {
            assert(l[f] == ph[f]);
            assert(is_digit(ph[f]));
        }
    }
    assert(find_char(l, '.') == Some(k));
    assert(l.subrange(0, k) =~= ph);
    assert(l.subrange(k + 1, l.len() as int) =~= pm);
    lemma_parse_digits(ph, h, u64::MAX as nat);
    lemma_parse_digits(pm, m, u64::MAX as nat);
    let t = v / 60;
    assert(t / 60 * 60 + t % 60 == t);
    assert(h * 3600 + m * 60 == v);
    assert(lb_text(Some(v)) =~= ", "@ + l);
}

/// A name the grammar reads back: identifier characters, at least one.
pub open spec fn printable_name(n: Seq<char>) -> bool {
    n.len() > 0 && forall|i: int| 0 <= i < n.len() ==> name_char(#[trigger] n[i])
}

/// A look-back the text form keeps: whole minutes.
pub open spec fn printable_lb(lb: Option<u64>) -> bool {
    lb matches Some(v) ==> v % 60 == 0
}

proof fn lemma_name_byte(c: char)
    requires
        name_char(c),
    ensures
        (c as u32) < 128,
        ident_byte(c as u8),
        !ws_byte(c as u8),
        !digit_byte(c as u8) || crate::text::is_digit(c),
{
}

proof fn lemma_name_at(b: Seq<u8>, p: int, n: Seq<char>)
    requires
        at(b, p, n),
        printable_name(n),
        p + n.len() < b.len(),
        !ident_byte(b[p + n.len()]),
    ensures
        skip_ws(b, p) == p,
        ident_end(b, p) == p + n.len(),
        read_ident(b, p) == (n, p + n.len()),
{
    assert forall|i: int| p <= i < p + n.len() implies ident_byte(#[trigger] b[i]) by {
        assert(b[p + (i - p)] == n[i - p] as u8);
        lemma_name_byte(n[i - p]);
    }
    lemma_ident_run(b, p, p + n.len());
    assert(b[p + 0] == n[0] as u8);
    lemma_name_byte(n[0]);
    assert(ascii_text(n)) by {
        assert forall|i: int| 0 <= i < n.len() implies (#[trigger] n[i] as u32) < 128 by {
            lemma_name_byte(n[i]);
        }
    }
    lemma_asc_at(b, p, n);
}

proof fn lemma_lb_char_byte(c: char)
    requires
        crate::text::is_digit(c) || c == '.',
    ensures
        lb_byte(c as u8),
        !ws_byte(c as u8),
{
}

proof fn lemma_read_lookback_at(b: Seq<u8>, p2: int, v: u64)
    requires
        v % 60 == 0,
        at(b, p2, lb_text(Some(v))),
        p2 + lb_text(Some(v)).len() < b.len(),
        b[p2 + lb_text(Some(v)).len()] == 41,
    ensures
        b[p2] == 44,
        read_lookback(b, p2 + 1) == Step::<u64>::Done(v, p2 + lb_text(Some(v)).len()),
{
    reveal_strlit(", ");
    lemma_lookback_text(v);
    let l = lb_operand(v);
    let pe = p2 + lb_text(Some(v)).len();
    lemma_at_concat(b, p2, ", "@, l);
    assert(b[p2 + 0] == (", "@)[0] as u8);
    assert(b[p2 + 1] == (", "@)[1] as u8);
    let q = p2 + 2;
    assert(b[q + 0] == l[0] as u8);
    lemma_lb_char_byte(l[0]);
    assert(skip_ws(b, q) == q);
    assert(skip_ws(b, p2 + 1) == q);
    assert forall|i: int| q <= i < q + l.len() implies lb_byte(#[trigger] b[i]) by {
        assert(b[q + (i - q)] == l[i - q] as u8);
        lemma_lb_char_byte(l[i - q]);
    }
    lemma_lb_run(b, q, pe);
    lemma_asc_at(b, q, l);
}

proof fn lemma_paren_name_lb(b: Seq<u8>, p: int, j: Seq<char>, lb: Option<u64>)
    requires
        at(b, p, "("@ + j + lb_text(lb) + ")"@),
        printable_name(j),
        printable_lb(lb),
    ensures
        paren_name_lb(b, p) == Step::<(Seq<char>, Option<u64>)>::Done(
            (j, lb),
            p + 2 + j.len() + lb_text(lb).len(),
        ),
{
    reveal_strlit("(");
    reveal_strlit(")");
    let lt = lb_text(lb);
    lemma_at_concat(b, p, "("@ + j + lt, ")"@);
    lemma_at_concat(b, p, "("@ + j, lt);
    lemma_at_concat(b, p, "("@, j);
    assert(b[p + 0] == ("("@)[0] as u8);
    let p1 = p + 1;
    let p2 = p1 + j.len();
    let pe = p2 + lt.len();
    assert(b[pe + 0] == (")"@)[0] as u8);
    assert(expect_char(b, p, 40) == Step::<()>::Done((), p1));
    assert(skip_ws(b, pe) == pe);
    assert(expect_char(b, pe, 41) == Step::<()>::Done((), pe + 1));
    match lb {
        None => {
            assert(lt.len() == 0);
            lemma_name_at(b, p1, j);
        },
        Some(v) => {
            lemma_read_lookback_at(b, p2, v);
            lemma_name_at(b, p1, j);
            assert(skip_ws(b, p2) == p2);
        },
    }
}

proof fn lemma_digit_char_byte(c: char)
    requires
        crate::text::is_digit(c),
    ensures
        digit_byte(c as u8),
        !ws_byte(c as u8),
        (c as u8) != 45,
{
}

proof fn lemma_digits_at(b: Seq<u8>, q: int, n: nat)
    requires
        at(b, q, dec(n)),
        q + dec(n).len() < b.len() ==> !digit_byte(b[q + dec(n).len()]),
    ensures
        digits_end(b, q) == q + dec(n).len(),
        asc(b.subrange(q, q + dec(n).len())) == dec(n),
        !ws_byte(b[q]),
        b[q] != 45,
{
    lemma_dec_value(n);
    let d = dec(n);
    assert forall|i: int| q <= i < q + d.len() implies digit_byte(#[trigger] b[i]) by {
        assert(b[q + (i - q)] == d[i - q] as u8);
        assert(crate::text::is_digit(d[i - q]));
        lemma_digit_char_byte(d[i - q]);
    }
    lemma_digit_run(b, q, q + d.len());
    lemma_asc_at(b, q, d);
    assert(b[q + 0] == d[0] as u8);
    lemma_digit_char_byte(d[0]);
}

proof fn lemma_read_int_at(b: Seq<u8>, q: int, v: i32)
    requires
        v != i32::MIN,
        at(b, q, int_text(v as int)),
        q + int_text(v as int).len() < b.len() ==> !digit_byte(b[q + int_text(v as int).len()]),
    ensures
        skip_ws(b, q) == q,
        read_int(b, q) == Step::<i32>::Done(v, q + int_text(v as int).len()),
{
    if v < 0 {
        let n = (-(v as int)) as nat;
        lemma_at_concat(b, q, seq!['-'], dec(n));
        assert(b[q + 0] == seq!['-'][0] as u8);
        lemma_digits_at(b, q + 1, n);
        lemma_dec_value(n);
        lemma_parse_digits(dec(n), n, 0x7fff_ffff);
    } else {
        let n = v as nat;
        lemma_digits_at(b, q, n);
        lemma_dec_value(n);
        lemma_parse_digits(dec(n), n, 0x7fff_ffff);
    }
}

proof fn lemma_op_int(b: Seq<u8>, p: int, op: CmpOp, v: i32, after: Seq<char>)
    requires
        v != i32::MIN,
        at(b, p, " "@ + op_text(op) + " "@ + int_text(v as int)),
        p + (" "@ + op_text(op) + " "@ + int_text(v as int)).len() < b.len() ==> !digit_byte(
            b[p + (" "@ + op_text(op) + " "@ + int_text(v as int)).len()],
        ),
    ensures
        op_and_int(b, p, after) == Step::<(CmpOp, i32)>::Done(
            (op, v),
            p + (" "@ + op_text(op) + " "@ + int_text(v as int)).len(),
        ),
{
    reveal_strlit(" ");
    reveal_strlit("=");
    reveal_strlit("!=");
    reveal_strlit("<");
    reveal_strlit("<=");
    reveal_strlit(">");
    reveal_strlit(">=");
    let ot = op_text(op);
    let it = int_text(v as int);
    lemma_at_concat(b, p, " "@ + ot + " "@, it);
    lemma_at_concat(b, p, " "@ + ot, " "@);
    lemma_at_concat(b, p, " "@, ot);
    assert(b[p + 0] == (" "@)[0] as u8);
    let q = p + 1;
    let q2 = q + ot.len();
    assert(b[q2 + 0] == (" "@)[0] as u8);
    assert(b[q + 0] == ot[0] as u8);
    if ot.len() == 2 {
        assert(b[q + 1] == ot[1] as u8);
    }
    assert(skip_ws(b, q) == q);
    assert(skip_ws(b, p) == q);
    assert(read_op(b, p) == (Some(op), q2));
    lemma_read_int_at(b, q2 + 1, v);
    assert(skip_ws(b, q2) == q2 + 1);
}

proof fn lemma_call_head(b: Seq<u8>, p0: int, p: int, f: Seq<char>)
    requires
        0 <= p0 <= p,
        skip_ws(b, p0) == p,
        at(b, p, f),
        p + f.len() < b.len(),
        b[p + f.len()] == 40,
        printable_name(f),
        lower_seq(f) == f,
        f != "not"@,
    ensures
        p_not(b, p0) == func_call(b, p + f.len(), f),
{
    lemma_name_at(b, p, f);
    let q2 = p + f.len();
    assert(skip_ws(b, q2) == q2);
    assert(read_ident(b, p) == (f, q2));
    assert(!is_word(f, "not"@));
    assert(skip_ws(b, p) == p);
    assert(b[p + 0] == f[0] as u8);
    lemma_name_byte(f[0]);
    assert(!byte_at(b, p, 40));
    assert(p_atom(b, p) == func_call(b, q2, f));
}

/// Expressions whose text form reads back unchanged: no negation, names of
/// identifier characters, look-backs in whole minutes, and comparison
/// operands other than `i32::MIN`.
pub open spec fn printable(e: ExprV) -> bool
    decreases e,
{
    match e {
        ExprV::Success(j, lb) => printable_name(j) && printable_lb(lb),
        ExprV::Failure(j, lb) => printable_name(j) && printable_lb(lb),
        ExprV::Done(j, lb) => printable_name(j) && printable_lb(lb),
        ExprV::Running(j) => printable_name(j),
        ExprV::NotRunning(j) => printable_name(j),
        ExprV::ExitCode(j, _, n) => printable_name(j) && n != i32::MIN,
        ExprV::NumRun(j, _, n, lb) => printable_name(j) && n != i32::MIN && printable_lb(lb),
        ExprV::NumSuc(j, _, n, lb) => printable_name(j) && n != i32::MIN && printable_lb(lb),
        ExprV::NumFail(j, _, n, lb) => printable_name(j) && n != i32::MIN && printable_lb(lb),
        ExprV::Value(j) => printable_name(j),
        ExprV::And(a, b) => printable(*a) && printable(*b),
        ExprV::Or(a, b) => printable(*a) && printable(*b),
        ExprV::Not(_) => false,
    }
}

proof fn lemma_ascii_concat(s: Seq<char>, t: Seq<char>)
    requires
        ascii_text(s),
        ascii_text(t),
    ensures
        ascii_text(s + t),
{
    assert forall|i: int| 0 <= i < (s + t).len() implies (#[trigger] (s + t)[i] as u32) < 128 by {
        if i < s.len() {
            assert((s + t)[i] == s[i]);
        } else {
            assert((s + t)[i] == t[i - s.len()]);
        }
    }
}

proof fn lemma_name_ascii(n: Seq<char>)
    requires
        printable_name(n),
    ensures
        ascii_text(n),
{
    assert forall|i: int| 0 <= i < n.len() implies (#[trigger] n[i] as u32) < 128 by {
        lemma_name_byte(n[i]);
    }
}

proof fn lemma_lb_ascii(lb: Option<u64>)
    requires
        printable_lb(lb),
    ensures
        ascii_text(lb_text(lb)),
{
    reveal_strlit(", ");
    match lb {
        None => {},
        Some(v) => {
            lemma_lookback_text(v);
            lemma_ascii_concat(", "@, lb_operand(v));
        },
    }
}

proof fn lemma_int_ascii(n: i32)
    ensures
        ascii_text(int_text(n as int)),
        int_text(n as int).len() >= 1,
{
    if n < 0 {
        lemma_dec_value((-(n as int)) as nat);
        lemma_ascii_concat(seq!['-'], dec((-(n as int)) as nat));
    } else {
        lemma_dec_value(n as nat);
    }
}

proof fn lemma_op_ascii(op: CmpOp)
    ensures
        ascii_text(op_text(op)),
{
    reveal_strlit("=");
    reveal_strlit("!=");
    reveal_strlit("<");
    reveal_strlit("<=");
    reveal_strlit(">");
    reveal_strlit(">=");
}

/// The text form of a printable expression is ASCII.
proof fn lemma_render_ascii(e: ExprV)
    requires
        printable(e),
    ensures
        ascii_text(render(e)),
    decreases e,
{
    reveal_strlit("success(");
    reveal_strlit("failure(");
    reveal_strlit("done(");
    reveal_strlit("running(");
    reveal_strlit("notrunning(");
    reveal_strlit("exitcode(");
    reveal_strlit("numrun(");
    reveal_strlit("numsuc(");
    reveal_strlit("numfail(");
    reveal_strlit("value(");
    reveal_strlit(")");
    reveal_strlit(") ");
    reveal_strlit(" ");
    reveal_strlit("(");
    reveal_strlit(" and ");
    reveal_strlit(" or ");
    match e {
        ExprV::Success(j, lb) => {
            lemma_name_ascii(j);
            lemma_lb_ascii(lb);
            lemma_ascii_concat("success("@, j);
            lemma_ascii_concat("success("@ + j, lb_text(lb));
            lemma_ascii_concat("success("@ + j + lb_text(lb), ")"@);
        },
        ExprV::Failure(j, lb) => {
            lemma_name_ascii(j);
            lemma_lb_ascii(lb);
            lemma_ascii_concat("failure("@, j);
            lemma_ascii_concat("failure("@ + j, lb_text(lb));
            lemma_ascii_concat("failure("@ + j + lb_text(lb), ")"@);
        },
        ExprV::Done(j, lb) => {
            lemma_name_ascii(j);
            lemma_lb_ascii(lb);
            lemma_ascii_concat("done("@, j);
            lemma_ascii_concat("done("@ + j, lb_text(lb));
            lemma_ascii_concat("done("@ + j + lb_text(lb), ")"@);
        },
        ExprV::Running(j) => {
            lemma_name_ascii(j);
            lemma_ascii_concat("running("@, j);
            lemma_ascii_concat("running("@ + j, ")"@);
        },
        ExprV::NotRunning(j) => {
            lemma_name_ascii(j);
            lemma_ascii_concat("notrunning("@, j);
            lemma_ascii_concat("notrunning("@ + j, ")"@);
        },
        ExprV::Value(j) => {
            lemma_name_ascii(j);
            lemma_ascii_concat("value("@, j);
            lemma_ascii_concat("value("@ + j, ")"@);
        },
        ExprV::ExitCode(j, op, n) => {
            lemma_name_ascii(j);
            lemma_op_ascii(op);
            lemma_int_ascii(n);
            let a = "exitcode("@ + j;
            lemma_ascii_concat("exitcode("@, j);
            lemma_ascii_concat(a, ") "@);
            lemma_ascii_concat(a + ") "@, op_text(op));
            lemma_ascii_concat(a + ") "@ + op_text(op), " "@);
            lemma_ascii_concat(a + ") "@ + op_text(op) + " "@, int_text(n as int));
        },
        ExprV::NumRun(j, op, n, lb) => {
            lemma_count_ascii("numrun("@, j, op, n, lb);
        },
        ExprV::NumSuc(j, op, n, lb) => {
            lemma_count_ascii("numsuc("@, j, op, n, lb);
        },
        ExprV::NumFail(j, op, n, lb) => {
            lemma_count_ascii("numfail("@, j, op, n, lb);
        },
        ExprV::And(x, y) => {
            lemma_render_ascii(*x);
            lemma_render_ascii(*y);
            lemma_ascii_concat("("@, render(*x));
            lemma_ascii_concat("("@ + render(*x), " and "@);
            lemma_ascii_concat("("@ + render(*x) + " and "@, render(*y));
            lemma_ascii_concat("("@ + render(*x) + " and "@ + render(*y), ")"@);
        },
        ExprV::Or(x, y) => {
            lemma_render_ascii(*x);
            lemma_render_ascii(*y);
            lemma_ascii_concat("("@, render(*x));
            lemma_ascii_concat("("@ + render(*x), " or "@);
            lemma_ascii_concat("("@ + render(*x) + " or "@, render(*y));
            lemma_ascii_concat("("@ + render(*x) + " or "@ + render(*y), ")"@);
        },
        ExprV::Not(_) => {},
    }
}

proof fn lemma_count_ascii(head: Seq<char>, j: Seq<char>, op: CmpOp, n: i32, lb: Option<u64>)
    requires
        ascii_text(head),
        printable_name(j),
        printable_lb(lb),
    ensures
        ascii_text(head + j + lb_text(lb) + ") "@ + op_text(op) + " "@ + int_text(n as int)),
{
    reveal_strlit(") ");
    reveal_strlit(" ");
    lemma_name_ascii(j);
    lemma_lb_ascii(lb);
    lemma_op_ascii(op);
    lemma_int_ascii(n);
    let a = head + j + lb_text(lb);
    lemma_ascii_concat(head, j);
    lemma_ascii_concat(head + j, lb_text(lb));
    lemma_ascii_concat(a, ") "@);
    lemma_ascii_concat(a + ") "@, op_text(op));
    lemma_ascii_concat(a + ") "@ + op_text(op), " "@);
    lemma_ascii_concat(a + ") "@ + op_text(op) + " "@, int_text(n as int));
}

/// A lower-case word of ASCII letters is a call word.
proof fn lemma_word(f: Seq<char>)
    requires
        f.len() > 0,
        f != "not"@,
        forall|i: int| 0 <= i < f.len() ==> 'a' <= #[trigger] f[i] <= 'z',
    ensures
        call_word(f),
{
    assert(lower_seq(f) =~= f);
}

/// A function word the grammar dispatches on.
pub open spec fn call_word(f: Seq<char>) -> bool {
    printable_name(f) && lower_seq(f) == f && f != "not"@
}

proof fn lemma_head_split(b: Seq<u8>, p: int, f: Seq<char>, rest: Seq<char>)
    requires
        at(b, p, f + rest),
        rest.len() > 0,
        rest[0] == '(',
    ensures
        at(b, p, f),
        at(b, p + f.len(), rest),
        p + f.len() < b.len(),
        b[p + f.len()] == 40,
{
    lemma_at_concat(b, p, f, rest);
    assert(b[p + f.len() + 0] == rest[0] as u8);
}

proof fn lemma_lb_form(b: Seq<u8>, p0: int, p: int, f: Seq<char>, j: Seq<char>, lb: Option<u64>)
    requires
        0 <= p0 <= p,
        skip_ws(b, p0) == p,
        call_word(f),
        lb_call_form(f) is Some,
        at(b, p, f + ("("@ + j + lb_text(lb) + ")"@)),
        printable_name(j),
        printable_lb(lb),
    ensures
        p_not(b, p0) == Step::Done(
            lb_call_node(lb_call_form(f)->0, j, lb),
            p + f.len() + 2 + j.len() + lb_text(lb).len(),
        ),
{
    reveal_strlit("(");
    let rest = "("@ + j + lb_text(lb) + ")"@;
    lemma_head_split(b, p, f, rest);
    lemma_call_head(b, p0, p, f);
    lemma_paren_name_lb(b, p + f.len(), j, lb);
}

proof fn lemma_name_form(b: Seq<u8>, p0: int, p: int, f: Seq<char>, j: Seq<char>)
    requires
        0 <= p0 <= p,
        skip_ws(b, p0) == p,
        call_word(f),
        lb_call_form(f) is None,
        name_form(f),
        at(b, p, f + ("("@ + j + ")"@)),
        printable_name(j),
    ensures
        p_not(b, p0) == Step::Done(name_node(f, j), p + f.len() + 2 + j.len()),
{
    reveal_strlit("(");
    let rest = "("@ + j + ")"@;
    assert(rest =~= "("@ + j + lb_text(None) + ")"@);
    lemma_head_split(b, p, f, rest);
    lemma_call_head(b, p0, p, f);
    lemma_paren_name_lb(b, p + f.len(), j, None);
}

proof fn lemma_exit_form(b: Seq<u8>, p0: int, p: int, j: Seq<char>, op: CmpOp, v: i32)
    requires
        0 <= p0 <= p,
        skip_ws(b, p0) == p,
        at(b, p, "exitcode"@ + ("("@ + j + ")"@) + (" "@ + op_text(op) + " "@ + int_text(v as int))),
        printable_name(j),
        v != i32::MIN,
        p + ("exitcode"@ + ("("@ + j + ")"@) + (" "@ + op_text(op) + " "@ + int_text(v as int))).len()
            < b.len() ==> !digit_byte(
            b[p + ("exitcode"@ + ("("@ + j + ")"@) + (" "@ + op_text(op) + " "@ + int_text(
                v as int,
            ))).len()],
        ),
    ensures
        p_not(b, p0) == Step::Done(
            ExprV::ExitCode(j, op, v),
            p + ("exitcode"@ + ("("@ + j + ")"@) + (" "@ + op_text(op) + " "@ + int_text(v as int))).len(),
        ),
{
    reveal_strlit("(");
    reveal_strlit(")");
    reveal_strlit("exitcode");
    reveal_strlit("success");
    reveal_strlit("s");
    reveal_strlit("failure");
    reveal_strlit("f");
    reveal_strlit("done");
    reveal_strlit("d");
    reveal_strlit("running");
    reveal_strlit("r");
    reveal_strlit("notrunning");
    reveal_strlit("n");
    reveal_strlit("value");
    reveal_strlit("exitcode");
    reveal_strlit("numrun");
    reveal_strlit("numsuc");
    reveal_strlit("numfail");
    reveal_strlit("not");
    let f = "exitcode"@;
    let mid = "("@ + j + ")"@;
    let tail = " "@ + op_text(op) + " "@ + int_text(v as int);
    lemma_word(f);
    lemma_at_concat(b, p, f + mid, tail);
    lemma_head_split(b, p, f, mid);
    lemma_call_head(b, p0, p, f);
    assert(mid =~= "("@ + j + lb_text(None) + ")"@);
    lemma_paren_name_lb(b, p + f.len(), j, None);
    lemma_op_int(b, p + f.len() + mid.len(), op, v, "exitcode"@);
}

proof fn lemma_count_form(
    b: Seq<u8>,
    p0: int,
    p: int,
    f: Seq<char>,
    j: Seq<char>,
    op: CmpOp,
    v: i32,
    lb: Option<u64>,
)
    requires
        0 <= p0 <= p,
        skip_ws(b, p0) == p,
        call_word(f),
        lb_call_form(f) is None,
        !name_form(f),
        f != "exitcode"@,
        count_form(f) is Some,
        at(b, p, f + ("("@ + j + lb_text(lb) + ")"@) + (" "@ + op_text(op) + " "@ + int_text(v as int))),
        printable_name(j),
        printable_lb(lb),
        v != i32::MIN,
        p + (f + ("("@ + j + lb_text(lb) + ")"@) + (" "@ + op_text(op) + " "@ + int_text(v as int))).len()
            < b.len() ==> !digit_byte(
            b[p + (f + ("("@ + j + lb_text(lb) + ")"@) + (" "@ + op_text(op) + " "@ + int_text(
                v as int,
            ))).len()],
        ),
    ensures
        p_not(b, p0) == Step::Done(
            count_node(count_form(f)->0, j, op, v, lb),
            p + (f + ("("@ + j + lb_text(lb) + ")"@) + (" "@ + op_text(op) + " "@ + int_text(v as int))).len(),
        ),
{
    reveal_strlit("(");
    reveal_strlit(")");
    let mid = "("@ + j + lb_text(lb) + ")"@;
    let tail = " "@ + op_text(op) + " "@ + int_text(v as int);
    lemma_at_concat(b, p, f + mid, tail);
    lemma_head_split(b, p, f, mid);
    lemma_call_head(b, p0, p, f);
    lemma_paren_name_lb(b, p + f.len(), j, lb);
    lemma_op_int(b, p + f.len() + mid.len(), op, v, f);
}

/// The text form of a printable expression starts with a lower-case letter
/// or `(`.
proof fn lemma_render_head(e: ExprV)
    requires
        printable(e),
    ensures
        render(e).len() > 0,
        ('a' <= render(e)[0] <= 'z') || render(e)[0] == '(',
        !(e is And) && !(e is Or) ==> 'a' <= render(e)[0] <= 'z',
{
    reveal_strlit("success(");
    reveal_strlit("failure(");
    reveal_strlit("done(");
    reveal_strlit("running(");
    reveal_strlit("notrunning(");
    reveal_strlit("exitcode(");
    reveal_strlit("numrun(");
    reveal_strlit("numsuc(");
    reveal_strlit("numfail(");
    reveal_strlit("value(");
    reveal_strlit("(");
}

proof fn lemma_head_byte(b: Seq<u8>, p: int, e: ExprV)
    requires
        printable(e),
        at(b, p, render(e)),
    ensures
        p < b.len(),
        !ws_byte(b[p]),
        !digit_byte(b[p]),
{
    lemma_render_head(e);
    assert(b[p + 0] == render(e)[0] as u8);
}

proof fn lemma_no_ident(b: Seq<u8>, p: int)
    requires
        0 <= p <= b.len(),
        p < b.len() ==> !ident_byte(b[p]) && !ws_byte(b[p]),
    ensures
        skip_ws(b, p) == p,
        read_ident(b, p) == (Seq::<char>::empty(), p),
{
    assert(asc(b.subrange(p, p)) =~= Seq::<char>::empty());
}

/// `" " + w + " "` at `p1`, before a non-blank byte: the identifier read
/// there is `w`.
proof fn lemma_keyword_at(b: Seq<u8>, p1: int, w: Seq<char>)
    requires
        at(b, p1, " "@ + w + " "@),
        forall|i: int| 0 <= i < w.len() ==> 'a' <= #[trigger] w[i] <= 'z',
        w.len() > 0,
    ensures
        read_ident(b, p1) == (w, p1 + 1 + w.len()),
        skip_ws(b, p1 + 1 + w.len()) == skip_ws(b, p1 + 2 + w.len()),
{
    reveal_strlit(" ");
    lemma_at_concat(b, p1, " "@ + w, " "@);
    lemma_at_concat(b, p1, " "@, w);
    assert(b[p1 + 0] == (" "@)[0] as u8);
    assert(b[p1 + 1 + w.len() + 0] == (" "@)[0] as u8);
    assert(printable_name(w)) by {
        assert forall|i: int| 0 <= i < w.len() implies name_char(#[trigger] w[i]) by {
            assert('a' <= w[i] <= 'z');
        }
    }
    lemma_name_at(b, p1 + 1, w);
    assert(skip_ws(b, p1) == p1 + 1);
}

proof fn lemma_word_success()
    ensures
        call_word("success"@),
        lb_call_form("success"@) == Some(0int),
        "success("@ == "success"@ + "("@,
{
    reveal_strlit("success");
    reveal_strlit("s");
    reveal_strlit("failure");
    reveal_strlit("f");
    reveal_strlit("done");
    reveal_strlit("d");
    reveal_strlit("not");
    reveal_strlit("(");
    reveal_strlit("success(");
    assert("success"@[0] != "failure"@[0]);
    assert("success"@.len() == 7);
    assert("not"@.len() == 3);
    lemma_word("success"@);
    assert("success("@ =~= "success"@ + "("@);
}

proof fn lemma_word_failure()
    ensures
        call_word("failure"@),
        lb_call_form("failure"@) == Some(1int),
        "failure("@ == "failure"@ + "("@,
{
    reveal_strlit("success");
    reveal_strlit("s");
    reveal_strlit("failure");
    reveal_strlit("f");
    reveal_strlit("done");
    reveal_strlit("d");
    reveal_strlit("not");
    reveal_strlit("(");
    reveal_strlit("failure(");
    assert("failure"@[0] != "success"@[0]);
    assert("failure"@.len() == 7);
    assert("not"@.len() == 3);
    lemma_word("failure"@);
    assert("failure("@ =~= "failure"@ + "("@);
}

proof fn lemma_word_done()
    ensures
        call_word("done"@),
        lb_call_form("done"@) == Some(2int),
        "done("@ == "done"@ + "("@,
{
    reveal_strlit("success");
    reveal_strlit("s");
    reveal_strlit("failure");
    reveal_strlit("f");
    reveal_strlit("done");
    reveal_strlit("d");
    reveal_strlit("not");
    reveal_strlit("(");
    reveal_strlit("done(");
    assert("done"@.len() == 4);
    assert("not"@.len() == 3);
    lemma_word("done"@);
    assert("done("@ =~= "done"@ + "("@);
}

proof fn lemma_word_running()
    ensures
        call_word("running"@),
        lb_call_form("running"@) is None,
        name_form("running"@),
        forall|j: Seq<char>| name_node("running"@, j) == ExprV::Running(j),
        "running("@ == "running"@ + "("@,
{
    reveal_strlit("success");
    reveal_strlit("s");
    reveal_strlit("failure");
    reveal_strlit("f");
    reveal_strlit("done");
    reveal_strlit("d");
    reveal_strlit("running");
    reveal_strlit("r");
    reveal_strlit("notrunning");
    reveal_strlit("n");
    reveal_strlit("value");
    reveal_strlit("not");
    reveal_strlit("(");
    reveal_strlit("running(");
    assert("running"@[0] != "success"@[0]);
    assert("running"@[0] != "failure"@[0]);
    assert("running"@.len() == 7);
    assert("not"@.len() == 3);
    lemma_word("running"@);
    assert("running("@ =~= "running"@ + "("@);
}

proof fn lemma_word_notrunning()
    ensures
        call_word("notrunning"@),
        lb_call_form("notrunning"@) is None,
        name_form("notrunning"@),
        forall|j: Seq<char>| name_node("notrunning"@, j) == ExprV::NotRunning(j),
        "notrunning("@ == "notrunning"@ + "("@,
{
    reveal_strlit("success");
    reveal_strlit("s");
    reveal_strlit("failure");
    reveal_strlit("f");
    reveal_strlit("done");
    reveal_strlit("d");
    reveal_strlit("running");
    reveal_strlit("r");
    reveal_strlit("notrunning");
    reveal_strlit("n");
    reveal_strlit("value");
    reveal_strlit("not");
    reveal_strlit("(");
    reveal_strlit("notrunning(");
    assert("notrunning"@.len() == 10);
    assert("not"@.len() == 3);
    lemma_word("notrunning"@);
    assert("notrunning("@ =~= "notrunning"@ + "("@);
}

proof fn lemma_word_value()
    ensures
        call_word("value"@),
        lb_call_form("value"@) is None,
        name_form("value"@),
        forall|j: Seq<char>| name_node("value"@, j) == ExprV::Value(j),
        "value("@ == "value"@ + "("@,
{
    reveal_strlit("success");
    reveal_strlit("s");
    reveal_strlit("failure");
    reveal_strlit("f");
    reveal_strlit("done");
    reveal_strlit("d");
    reveal_strlit("running");
    reveal_strlit("r");
    reveal_strlit("notrunning");
    reveal_strlit("n");
    reveal_strlit("value");
    reveal_strlit("not");
    reveal_strlit("(");
    reveal_strlit("value(");
    assert("value"@.len() == 5);
    assert("not"@.len() == 3);
    lemma_word("value"@);
    assert("value("@ =~= "value"@ + "("@);
}

proof fn lemma_word_numrun()
    ensures
        call_word("numrun"@),
        lb_call_form("numrun"@) is None,
        !name_form("numrun"@),
        "numrun"@ != "exitcode"@,
        count_form("numrun"@) == Some(0int),
        "numrun("@ == "numrun"@ + "("@,
{
    reveal_strlit("success");
    reveal_strlit("s");
    reveal_strlit("failure");
    reveal_strlit("f");
    reveal_strlit("done");
    reveal_strlit("d");
    reveal_strlit("running");
    reveal_strlit("r");
    reveal_strlit("notrunning");
    reveal_strlit("n");
    reveal_strlit("value");
    reveal_strlit("exitcode");
    reveal_strlit("numrun");
    reveal_strlit("numsuc");
    reveal_strlit("numfail");
    reveal_strlit("not");
    reveal_strlit("(");
    reveal_strlit("numrun(");
    assert("numrun"@[3] != "numsuc"@[3]);
    assert("numrun"@.len() == 6);
    assert("not"@.len() == 3);
    lemma_word("numrun"@);
    assert("numrun("@ =~= "numrun"@ + "("@);
}

proof fn lemma_word_numsuc()
    ensures
        call_word("numsuc"@),
        lb_call_form("numsuc"@) is None,
        !name_form("numsuc"@),
        "numsuc"@ != "exitcode"@,
        count_form("numsuc"@) == Some(1int),
        "numsuc("@ == "numsuc"@ + "("@,
{
    reveal_strlit("success");
    reveal_strlit("s");
    reveal_strlit("failure");
    reveal_strlit("f");
    reveal_strlit("done");
    reveal_strlit("d");
    reveal_strlit("running");
    reveal_strlit("r");
    reveal_strlit("notrunning");
    reveal_strlit("n");
    reveal_strlit("value");
    reveal_strlit("exitcode");
    reveal_strlit("numrun");
    reveal_strlit("numsuc");
    reveal_strlit("numfail");
    reveal_strlit("not");
    reveal_strlit("(");
    reveal_strlit("numsuc(");
    assert("numsuc"@[3] != "numrun"@[3]);
    assert("numsuc"@.len() == 6);
    assert("not"@.len() == 3);
    lemma_word("numsuc"@);
    assert("numsuc("@ =~= "numsuc"@ + "("@);
}

proof fn lemma_word_numfail()
    ensures
        call_word("numfail"@),
        lb_call_form("numfail"@) is None,
        !name_form("numfail"@),
        "numfail"@ != "exitcode"@,
        count_form("numfail"@) == Some(2int),
        "numfail("@ == "numfail"@ + "("@,
{
    reveal_strlit("success");
    reveal_strlit("s");
    reveal_strlit("failure");
    reveal_strlit("f");
    reveal_strlit("done");
    reveal_strlit("d");
    reveal_strlit("running");
    reveal_strlit("r");
    reveal_strlit("notrunning");
    reveal_strlit("n");
    reveal_strlit("value");
    reveal_strlit("exitcode");
    reveal_strlit("numrun");
    reveal_strlit("numsuc");
    reveal_strlit("numfail");
    reveal_strlit("not");
    reveal_strlit("(");
    reveal_strlit("numfail(");
    assert("numfail"@[0] != "success"@[0]);
    assert("numfail"@[0] != "failure"@[0]);
    assert("numfail"@[0] != "running"@[0]);
    assert("numfail"@.len() == 7);
    assert("not"@.len() == 3);
    lemma_word("numfail"@);
    assert("numfail("@ =~= "numfail"@ + "("@);
}

/// Binary node facts: where each part of `(x w y)` stands and what the
/// parser sees around the operands.
proof fn lemma_binary_layout(b: Seq<u8>, p: int, x: ExprV, y: ExprV, w: Seq<char>)
    requires
        printable(x),
        printable(y),
        w == "and"@ || w == "or"@,
        at(b, p, "("@ + render(x) + (" "@ + w + " "@) + render(y) + ")"@),
    ensures
        at(b, p + 1, render(x)),
        at(b, p + 1 + render(x).len() + 2 + w.len(), render(y)),
        skip_ws(b, p + 1) == p + 1,
        b[p + 1 + render(x).len()] == 32,
        read_ident(b, p + 1 + render(x).len()) == (w, p + 1 + render(x).len() + 1 + w.len()),
        skip_ws(b, p + 1 + render(x).len() + 1 + w.len()) == p + 1 + render(x).len() + 2 + w.len(),
        b[p] == 40,
        b[p + 1 + render(x).len() + 2 + w.len() + render(y).len()] == 41,
        ("("@ + render(x) + (" "@ + w + " "@) + render(y) + ")"@).len() == render(x).len() + render(
            y,
        ).len() + w.len() + 4,
{
    reveal_strlit("(");
    reveal_strlit(")");
    reveal_strlit(" ");
    reveal_strlit("and");
    reveal_strlit("or");
    let rx = render(x);
    let ry = render(y);
    let kw = " "@ + w + " "@;
    lemma_at_concat(b, p, "("@ + rx + kw + ry, ")"@);
    lemma_at_concat(b, p, "("@ + rx + kw, ry);
    lemma_at_concat(b, p, "("@ + rx, kw);
    lemma_at_concat(b, p, "("@, rx);
    lemma_at_concat(b, p + 1 + rx.len(), " "@ + w, " "@);
    lemma_at_concat(b, p + 1 + rx.len(), " "@, w);
    let px = p + 1;
    let p1 = px + rx.len();
    let py = p1 + 2 + w.len();
    let p3 = py + ry.len();
    assert(b[p1 + 0] == (" "@)[0] as u8);
    assert(b[p3 + 0] == (")"@)[0] as u8);
    assert(b[p + 0] == ("("@)[0] as u8);
    lemma_head_byte(b, px, x);
    lemma_head_byte(b, py, y);
    lemma_keyword_at(b, p1, w);
}

proof fn lemma_leaf_lb(e: ExprV, b: Seq<u8>, p0: int, p: int)
    requires
        printable(e),
        e is Success || e is Failure || e is Done,
        0 <= p0 <= p,
        skip_ws(b, p0) == p,
        at(b, p, render(e)),
        p + render(e).len() < b.len() ==> !digit_byte(b[p + render(e).len()]),
    ensures
        p_not(b, p0) == Step::Done(e, p + render(e).len()),
{
    reveal_strlit("(");
    reveal_strlit(")");
    reveal_strlit(" ");
    match e {
        ExprV::Success(j, lb) => {
            lemma_word_success();
            assert(render(e) =~= "success"@ + ("("@ + j + lb_text(lb) + ")"@));
            lemma_lb_form(b, p0, p, "success"@, j, lb);
        },
        ExprV::Failure(j, lb) => {
            lemma_word_failure();
            assert(render(e) =~= "failure"@ + ("("@ + j + lb_text(lb) + ")"@));
            lemma_lb_form(b, p0, p, "failure"@, j, lb);
        },
        ExprV::Done(j, lb) => {
            lemma_word_done();
            assert(render(e) =~= "done"@ + ("("@ + j + lb_text(lb) + ")"@));
            lemma_lb_form(b, p0, p, "done"@, j, lb);
        },
        _ => {},
    }
}

proof fn lemma_leaf_name(e: ExprV, b: Seq<u8>, p0: int, p: int)
    requires
        printable(e),
        e is Running || e is NotRunning || e is Value,
        0 <= p0 <= p,
        skip_ws(b, p0) == p,
        at(b, p, render(e)),
        p + render(e).len() < b.len() ==> !digit_byte(b[p + render(e).len()]),
    ensures
        p_not(b, p0) == Step::Done(e, p + render(e).len()),
{
    reveal_strlit("(");
    reveal_strlit(")");
    reveal_strlit(" ");
    match e {
        ExprV::Running(j) => {
            lemma_word_running();
            assert(render(e) =~= "running"@ + ("("@ + j + ")"@));
            lemma_name_form(b, p0, p, "running"@, j);
        },
        ExprV::NotRunning(j) => {
            lemma_word_notrunning();
            assert(render(e) =~= "notrunning"@ + ("("@ + j + ")"@));
            lemma_name_form(b, p0, p, "notrunning"@, j);
        },
        ExprV::Value(j) => {
            lemma_word_value();
            assert(render(e) =~= "value"@ + ("("@ + j + ")"@));
            lemma_name_form(b, p0, p, "value"@, j);
        },
        _ => {},
    }
}

proof fn lemma_leaf_op(e: ExprV, b: Seq<u8>, p0: int, p: int)
    requires
        printable(e),
        e is ExitCode || e is NumRun || e is NumSuc || e is NumFail,
        0 <= p0 <= p,
        skip_ws(b, p0) == p,
        at(b, p, render(e)),
        p + render(e).len() < b.len() ==> !digit_byte(b[p + render(e).len()]),
    ensures
        p_not(b, p0) == Step::Done(e, p + render(e).len()),
{
    reveal_strlit("(");
    reveal_strlit(")");
    reveal_strlit(" ");
    match e {
        ExprV::ExitCode(j, op, v) => {
            reveal_strlit("exitcode(");
            reveal_strlit("exitcode");
            reveal_strlit("(");
            reveal_strlit(") ");
            assert(render(e) =~= "exitcode"@ + ("("@ + j + ")"@) + (" "@ + op_text(op) + " "@
                + int_text(v as int)));
            lemma_exit_form(b, p0, p, j, op, v);
        },
        ExprV::NumRun(j, op, v, lb) => {
            lemma_word_numrun();
            lemma_count_split("numrun"@, j, op, v, lb);
            lemma_count_form(b, p0, p, "numrun"@, j, op, v, lb);
        },
        ExprV::NumSuc(j, op, v, lb) => {
            lemma_word_numsuc();
            lemma_count_split("numsuc"@, j, op, v, lb);
            lemma_count_form(b, p0, p, "numsuc"@, j, op, v, lb);
        },
        ExprV::NumFail(j, op, v, lb) => {
            lemma_word_numfail();
            lemma_count_split("numfail"@, j, op, v, lb);
            lemma_count_form(b, p0, p, "numfail"@, j, op, v, lb);
        },
        _ => {},
    }
}

proof fn lemma_atom(e: ExprV, b: Seq<u8>, p0: int, p: int)
    requires
        printable(e),
        0 <= p0 <= p,
        skip_ws(b, p0) == p,
        at(b, p, render(e)),
        p + render(e).len() < b.len() ==> !digit_byte(b[p + render(e).len()]),
    ensures
        p_not(b, p0) == Step::Done(e, p + render(e).len()),
    decreases e,
{
    reveal_strlit("(");
    reveal_strlit(")");
    reveal_strlit(" and ");
    reveal_strlit(" or ");
    reveal_strlit(" ");
    reveal_strlit("and");
    reveal_strlit("or");
    match e {
        ExprV::And(x, y) => {
            let w = "and"@;
            assert(render(e) =~= "("@ + render(*x) + (" "@ + w + " "@) + render(*y) + ")"@);
            lemma_binary_layout(b, p, *x, *y, w);
            let p1 = p + 1 + render(*x).len();
            lemma_atom(*x, b, p + 1, p + 1);
            lemma_atom(*y, b, p1 + 1 + w.len(), p1 + 2 + w.len());
            lemma_and_steps(b, p + 1, *x, *y, p1, p1 + 1 + w.len(), p1 + 2 + w.len() + render(*y).len());
            lemma_paren_steps(b, p0, p, e, p1 + 2 + w.len() + render(*y).len());
        },
        ExprV::Or(x, y) => {
            let w = "or"@;
            assert(render(e) =~= "("@ + render(*x) + (" "@ + w + " "@) + render(*y) + ")"@);
            lemma_binary_layout(b, p, *x, *y, w);
            let p1 = p + 1 + render(*x).len();
            lemma_atom(*x, b, p + 1, p + 1);
            lemma_atom(*y, b, p1 + 1 + w.len(), p1 + 2 + w.len());
            lemma_or_steps(b, p + 1, *x, *y, p1, p1 + 1 + w.len(), p1 + 2 + w.len() + render(*y).len());
            lemma_paren_steps(b, p0, p, e, p1 + 2 + w.len() + render(*y).len());
        },
        ExprV::Not(_) => {},
        ExprV::Success(..) | ExprV::Failure(..) | ExprV::Done(..) => {
            lemma_leaf_lb(e, b, p0, p);
        },
        ExprV::Running(..) | ExprV::NotRunning(..) | ExprV::Value(..) => {
            lemma_leaf_name(e, b, p0, p);
        },
        _ => {
            lemma_leaf_op(e, b, p0, p);
        },
    }
}


proof fn lemma_count_split(f: Seq<char>, j: Seq<char>, op: CmpOp, v: i32, lb: Option<u64>)
    requires
        f + "("@ == (f + "("@),
    ensures
        (f + "("@) + j + lb_text(lb) + ") "@ + op_text(op) + " "@ + int_text(v as int) =~= f + ("("@
            + j + lb_text(lb) + ")"@) + (" "@ + op_text(op) + " "@ + int_text(v as int)),
{
    reveal_strlit("(");
    reveal_strlit(")");
    reveal_strlit(") ");
    reveal_strlit(" ");
    assert(") "@ =~= ")"@ + " "@);
}

/// A parenthesised expression: the parser reads what `p_or` reads inside
/// and the closing parenthesis.
proof fn lemma_paren_steps(b: Seq<u8>, p0: int, p: int, e: ExprV, p3: int)
    requires
        0 <= p0 <= p,
        p + 1 <= p3 < b.len(),
        skip_ws(b, p0) == p,
        b[p] == 40,
        b[p3] == 41,
        p_or(b, p + 1) == Step::Done(e, p3),
    ensures
        p_not(b, p0) == Step::Done(e, p3 + 1),
{
    reveal_strlit("not");
    lemma_no_ident(b, p3);
    lemma_no_ident(b, p);
    assert(!is_word(Seq::<char>::empty(), "not"@));
    assert(expect_char(b, p3, 41) == Step::<()>::Done((), p3 + 1));
    assert(p_atom(b, p) == Step::Done(e, p3 + 1));
}

/// `x and y` inside parentheses reads as the conjunction.
proof fn lemma_and_steps(b: Seq<u8>, px: int, x: ExprV, y: ExprV, p1: int, q2: int, p3: int)
    requires
        px <= p1 < q2 < p3 < b.len(),
        b[p3] == 41,
        p_not(b, px) == Step::Done(x, p1),
        read_ident(b, p1) == ("and"@, q2),
        p_not(b, q2) == Step::Done(y, p3),
    ensures
        p_or(b, px) == Step::Done(ExprV::And(Box::new(x), Box::new(y)), p3),
{
    reveal_strlit("and");
    reveal_strlit("or");
    let e = ExprV::And(Box::new(x), Box::new(y));
    lemma_no_ident(b, p3);
    assert("or"@.len() == 2);
    assert("and"@.len() == 3);
    assert(lower_seq(Seq::<char>::empty()).len() == 0);
    assert(!is_word(Seq::<char>::empty(), "and"@));
    assert(!is_word(Seq::<char>::empty(), "or"@));
    assert(lower_seq("and"@) =~= "and"@);
    assert(and_tail(b, p3, e) == Step::Done(e, p3));
    assert(and_tail(b, p1, x) == Step::Done(e, p3));
    assert(p_and(b, px) == Step::Done(e, p3));
    assert(or_tail(b, p3, e) == Step::Done(e, p3));
}

/// `x or y` inside parentheses reads as the disjunction.
proof fn lemma_or_steps(b: Seq<u8>, px: int, x: ExprV, y: ExprV, p1: int, q2: int, p3: int)
    requires
        px <= p1 < q2 < p3 < b.len(),
        b[p3] == 41,
        p_not(b, px) == Step::Done(x, p1),
        read_ident(b, p1) == ("or"@, q2),
        p_not(b, q2) == Step::Done(y, p3),
    ensures
        p_or(b, px) == Step::Done(ExprV::Or(Box::new(x), Box::new(y)), p3),
{
    reveal_strlit("and");
    reveal_strlit("or");
    let e = ExprV::Or(Box::new(x), Box::new(y));
    lemma_no_ident(b, p3);
    assert("or"@.len() == 2);
    assert(lower_seq(Seq::<char>::empty()).len() == 0);
    assert(!is_word(Seq::<char>::empty(), "and"@));
    assert(!is_word(Seq::<char>::empty(), "or"@));
    assert(lower_seq("or"@) =~= "or"@);
    assert("or"@[0] != "and"@[0]);
    assert(!is_word("or"@, "and"@));
    assert(and_tail(b, p1, x) == Step::Done(x, p1));
    assert(p_and(b, px) == Step::Done(x, p1));
    assert(and_tail(b, p3, y) == Step::Done(y, p3));
    assert(p_and(b, q2) == Step::Done(y, p3));
    assert(or_tail(b, p3, e) == Step::Done(e, p3));
    assert(or_tail(b, p1, x) == Step::Done(e, p3));
}

proof fn lemma_char_bound(c: char)
    requires
        (c as u32) < 128,
    ensures
        '\0' <= c <= '\u{7f}',
{
}

/// The text form reads back: an expression without negation, whose names
/// are identifier characters, whose look-backs are whole minutes and whose
/// comparison operands are not `i32::MIN`, renders to a text that parses
/// back to the same expression, consuming all of it.
pub proof fn lemma_render_parses_back(e: ExprV)
    requires
        printable(e),
    ensures
        parse_spec(vstd::utf8::encode_utf8(render(e))) == Step::Done(e, render(e).len() as int),
{
    let r = render(e);
    lemma_render_ascii(e);
    assert(vstd::utf8::is_ascii_chars(r)) by {
        assert forall|i: int| 0 <= i < r.len() implies '\0' <= #[trigger] r[i] <= '\u{7f}' by {
            lemma_char_bound(r[i]);
        }
    }
    vstd::utf8::is_ascii_chars_encode_utf8(r);
    let b = vstd::utf8::encode_utf8(r);
    let n = r.len() as int;
    assert(at(b, 0, r)) by {
        assert forall|i: int| 0 <= i < r.len() implies b[0 + i] == #[trigger] r[i] as u8 by {
            assert(b[i] == r[i] as u8);
        }
    }
    lemma_head_byte(b, 0, e);
    lemma_atom(e, b, 0, 0);
    lemma_no_ident(b, n);
    reveal_strlit("and");
    reveal_strlit("or");
    assert(lower_seq(Seq::<char>::empty()).len() == 0);
    assert(!is_word(Seq::<char>::empty(), "and"@));
    assert(!is_word(Seq::<char>::empty(), "or"@));
    assert(and_tail(b, n, e) == Step::Done(e, n));
    assert(p_and(b, 0) == Step::Done(e, n));
    assert(or_tail(b, n, e) == Step::Done(e, n));
    assert(p_or(b, 0) == Step::Done(e, n));
}

/// The function-call forms: expressions that are neither `and`, `or` nor
/// `not`.
pub open spec fn call_form(e: ExprV) -> bool {
    !(e is And) && !(e is Or) && !(e is Not)
}

/// `not X` at `p`, for a call `X`: the negation of `X`.
proof fn lemma_not_call(x: ExprV, b: Seq<u8>, p: int)
    requires
        printable(x),
        call_form(x),
        at(b, p, "not "@ + render(x)),
        p + 4 + render(x).len() < b.len() ==> !digit_byte(b[p + 4 + render(x).len()]),
    ensures
        p_not(b, p) == Step::Done(ExprV::Not(Box::new(x)), p + 4 + render(x).len()),
{
    reveal_strlit("not ");
    reveal_strlit("not");
    reveal_strlit(" ");
    let rx = render(x);
    lemma_at_concat(b, p, "not "@, rx);
    assert("not "@ =~= "not"@ + " "@);
    lemma_at_concat(b, p, "not"@, " "@);
    assert(b[p + 3 + 0] == (" "@)[0] as u8);
    lemma_render_head(x);
    lemma_head_byte(b, p + 4, x);
    assert(b[p + 4 + 0] == rx[0] as u8);
    assert(printable_name("not"@)) by {
        assert forall|i: int| 0 <= i < "not"@.len() implies name_char(#[trigger] "not"@[i]) by {
            assert('a' <= "not"@[i] <= 'z');
        }
    }
    lemma_name_at(b, p, "not"@);
    assert(skip_ws(b, p + 4) == p + 4);
    assert(skip_ws(b, p + 3) == p + 4);
    assert(!byte_at(b, p + 4, 40));
    assert(lower_seq("not"@) =~= "not"@);
    lemma_atom(x, b, p + 4, p + 4);
}

/// The text `not X w Y` for `w` one of `and`, `or`, as bytes.
proof fn lemma_not_then_layout(x: ExprV, y: ExprV, w: Seq<char>) -> (b: Seq<u8>)
    requires
        printable(x),
        printable(y),
        w == "and"@ || w == "or"@,
    ensures
        b == vstd::utf8::encode_utf8("not "@ + render(x) + (" "@ + w + " "@) + render(y)),
        b.len() == 4 + render(x).len() + 2 + w.len() + render(y).len(),
        at(b, 0, "not "@ + render(x)),
        at(b, 4 + render(x).len() as int, " "@ + w + " "@),
        at(b, 4 + render(x).len() as int + 2 + w.len() as int, render(y)),
        b[4 + render(x).len() as int] == 32,
{
    reveal_strlit("not ");
    reveal_strlit(" ");
    reveal_strlit("and");
    reveal_strlit("or");
    let rx = render(x);
    let ry = render(y);
    let kw = " "@ + w + " "@;
    let r = "not "@ + rx + kw + ry;
    lemma_render_ascii(x);
    lemma_render_ascii(y);
    assert(ascii_text("not "@));
    assert(ascii_text(kw));
    lemma_ascii_concat("not "@, rx);
    lemma_ascii_concat("not "@ + rx, kw);
    lemma_ascii_concat("not "@ + rx + kw, ry);
    assert(vstd::utf8::is_ascii_chars(r)) by {
        assert forall|i: int| 0 <= i < r.len() implies '\0' <= #[trigger] r[i] <= '\u{7f}' by {
            lemma_char_bound(r[i]);
        }
    }
    vstd::utf8::is_ascii_chars_encode_utf8(r);
    let b = vstd::utf8::encode_utf8(r);
    assert(at(b, 0, r)) by {
        assert forall|i: int| 0 <= i < r.len() implies b[0 + i] == #[trigger] r[i] as u8 by {
            assert(b[i] == r[i] as u8);
        }
    }
    lemma_at_concat(b, 0, "not "@ + rx + kw, ry);
    lemma_at_concat(b, 0, "not "@ + rx, kw);
    assert(b[4 + rx.len() as int + 0] == kw[0] as u8);
    b
}

/// `not` binds tighter than `and` and `or`: for every call `X` and every
/// expression `Y` whose text reads back, the text `not X and Y` reads as
/// `(not X) and Y` and the text `not X or Y` as `(not X) or Y`, consuming
/// all of it.
pub proof fn lemma_not_binds_tighter(x: ExprV, y: ExprV)
    requires
        printable(x),
        call_form(x),
        printable(y),
    ensures
        ({
            let t = "not "@ + render(x) + " and "@ + render(y);
            parse_spec(vstd::utf8::encode_utf8(t)) == Step::Done(
                ExprV::And(Box::new(ExprV::Not(Box::new(x))), Box::new(y)),
                t.len() as int,
            )
        }),
        ({
            let t = "not "@ + render(x) + " or "@ + render(y);
            parse_spec(vstd::utf8::encode_utf8(t)) == Step::Done(
                ExprV::Or(Box::new(ExprV::Not(Box::new(x))), Box::new(y)),
                t.len() as int,
            )
        }),
{
    reveal_strlit(" and ");
    reveal_strlit(" or ");
    reveal_strlit(" ");
    reveal_strlit("and");
    reveal_strlit("or");
    assert(" and "@ =~= " "@ + "and"@ + " "@);
    assert(" or "@ =~= " "@ + "or"@ + " "@);
    lemma_not_then(x, y, "and"@);
    lemma_not_then(x, y, "or"@);
}

proof fn lemma_not_then(x: ExprV, y: ExprV, w: Seq<char>)
    requires
        printable(x),
        call_form(x),
        printable(y),
        w == "and"@ || w == "or"@,
    ensures
        ({
            let t = "not "@ + render(x) + (" "@ + w + " "@) + render(y);
            let nx = ExprV::Not(Box::new(x));
            parse_spec(vstd::utf8::encode_utf8(t)) == Step::Done(
                if w == "and"@ {
                    ExprV::And(Box::new(nx), Box::new(y))
                } else {
                    ExprV::Or(Box::new(nx), Box::new(y))
                },
                t.len() as int,
            )
        }),
{
    reveal_strlit("and");
    reveal_strlit("or");
    reveal_strlit("not ");
    reveal_strlit(" ");
    let b = lemma_not_then_layout(x, y, w);
    let nx = ExprV::Not(Box::new(x));
    let p1: int = 4 + render(x).len() as int;
    let q2: int = p1 + 1 + w.len();
    let py: int = p1 + 2 + w.len();
    let n = b.len() as int;
    assert(n == py + render(y).len());
    lemma_not_call(x, b, 0);
    assert(p_not(b, 0) == Step::Done(nx, p1));
    assert forall|i: int| 0 <= i < w.len() implies 'a' <= #[trigger] w[i] <= 'z' by {}
    lemma_keyword_at(b, p1, w);
    lemma_head_byte(b, py, y);
    assert(skip_ws(b, py) == py);
    lemma_atom(y, b, q2, py);
    assert(p_not(b, q2) == Step::Done(y, n));
    lemma_no_ident(b, n);
    assert("or"@.len() == 2);
    assert("and"@.len() == 3);
    assert(lower_seq(Seq::<char>::empty()).len() == 0);
    assert(!is_word(Seq::<char>::empty(), "and"@));
    assert(!is_word(Seq::<char>::empty(), "or"@));
    assert(lower_seq("and"@) =~= "and"@);
    assert(lower_seq("or"@) =~= "or"@);
    assert("or"@[0] != "and"@[0]);
    assert(!is_word("or"@, "and"@));
    assert(!is_word("and"@, "or"@));
    if w == "and"@ {
        let e = ExprV::And(Box::new(nx), Box::new(y));
        assert(and_tail(b, n, e) == Step::Done(e, n));
        assert(and_tail(b, p1, nx) == Step::Done(e, n));
        assert(p_and(b, 0) == Step::Done(e, n));
        assert(or_tail(b, n, e) == Step::Done(e, n));
        assert(p_or(b, 0) == Step::Done(e, n));
    } else {
        let e = ExprV::Or(Box::new(nx), Box::new(y));
        assert(and_tail(b, p1, nx) == Step::Done(nx, p1));
        assert(p_and(b, 0) == Step::Done(nx, p1));
        assert(and_tail(b, n, y) == Step::Done(y, n));
        assert(p_and(b, q2) == Step::Done(y, n));
        assert(or_tail(b, n, e) == Step::Done(e, n));
        assert(or_tail(b, p1, nx) == Step::Done(e, n));
        assert(p_or(b, 0) == Step::Done(e, n));
    }
}

/// The text `X w1 Y w2 Z`, for `w1`, `w2` each one of `and`, `or`, as bytes.
proof fn lemma_chain_layout(x: ExprV, y: ExprV, z: ExprV, w1: Seq<char>, w2: Seq<char>) -> (b: Seq<u8>)
    requires
        printable(x),
        printable(y),
        printable(z),
        w1 == "and"@ || w1 == "or"@,
        w2 == "and"@ || w2 == "or"@,
    ensures
        b == vstd::utf8::encode_utf8(
            render(x) + (" "@ + w1 + " "@) + render(y) + (" "@ + w2 + " "@) + render(z),
        ),
        b.len() == render(x).len() + render(y).len() + render(z).len() + w1.len() + w2.len() + 4,
        at(b, 0, render(x)),
        at(b, render(x).len() as int, " "@ + w1 + " "@),
        at(b, render(x).len() as int + 2 + w1.len(), render(y)),
        at(b, render(x).len() as int + 2 + w1.len() + render(y).len(), " "@ + w2 + " "@),
        at(b, render(x).len() as int + w1.len() + render(y).len() + w2.len() + 4, render(z)),
        b[render(x).len() as int] == 32,
        b[render(x).len() as int + 2 + w1.len() + render(y).len()] == 32,
{
    reveal_strlit(" ");
    reveal_strlit("and");
    reveal_strlit("or");
    let rx = render(x);
    let ry = render(y);
    let rz = render(z);
    let k1 = " "@ + w1 + " "@;
    let k2 = " "@ + w2 + " "@;
    let r = rx + k1 + ry + k2 + rz;
    lemma_render_ascii(x);
    lemma_render_ascii(y);
    lemma_render_ascii(z);
    assert(ascii_text(k1));
    assert(ascii_text(k2));
    lemma_ascii_concat(rx, k1);
    lemma_ascii_concat(rx + k1, ry);
    lemma_ascii_concat(rx + k1 + ry, k2);
    lemma_ascii_concat(rx + k1 + ry + k2, rz);
    assert(vstd::utf8::is_ascii_chars(r)) by {
        assert forall|i: int| 0 <= i < r.len() implies '\0' <= #[trigger] r[i] <= '\u{7f}' by {
            lemma_char_bound(r[i]);
        }
    }
    vstd::utf8::is_ascii_chars_encode_utf8(r);
    let b = vstd::utf8::encode_utf8(r);
    assert(at(b, 0, r)) by {
        assert forall|i: int| 0 <= i < r.len() implies b[0 + i] == #[trigger] r[i] as u8 by {
            assert(b[i] == r[i] as u8);
        }
    }
    lemma_at_concat(b, 0, rx + k1 + ry + k2, rz);
    lemma_at_concat(b, 0, rx + k1 + ry, k2);
    lemma_at_concat(b, 0, rx + k1, ry);
    lemma_at_concat(b, 0, rx, k1);
    assert(b[rx.len() as int + 0] == k1[0] as u8);
    assert(b[rx.len() as int + k1.len() + ry.len() + 0] == k2[0] as u8);
    b
}

/// `and` binds tighter than `or`: for all expressions `X`, `Y`, `Z` whose
/// text reads back, the text `X or Y and Z` reads as `X or (Y and Z)` and
/// the text `X and Y or Z` as `(X and Y) or Z`, consuming all of it.
pub proof fn lemma_and_binds_tighter_than_or(x: ExprV, y: ExprV, z: ExprV)
    requires
        printable(x),
        printable(y),
        printable(z),
    ensures
        ({
            let t = render(x) + " or "@ + render(y) + " and "@ + render(z);
            parse_spec(vstd::utf8::encode_utf8(t)) == Step::Done(
                ExprV::Or(Box::new(x), Box::new(ExprV::And(Box::new(y), Box::new(z)))),
                t.len() as int,
            )
        }),
        ({
            let t = render(x) + " and "@ + render(y) + " or "@ + render(z);
            parse_spec(vstd::utf8::encode_utf8(t)) == Step::Done(
                ExprV::Or(Box::new(ExprV::And(Box::new(x), Box::new(y))), Box::new(z)),
                t.len() as int,
            )
        }),
{
    reveal_strlit(" and ");
    reveal_strlit(" or ");
    reveal_strlit(" ");
    reveal_strlit("and");
    reveal_strlit("or");
    assert(" and "@ =~= " "@ + "and"@ + " "@);
    assert(" or "@ =~= " "@ + "or"@ + " "@);
    lemma_or_and(x, y, z);
    lemma_and_or(x, y, z);
}

/// The readers' steps over `X w1 Y w2 Z`: the three operands and the two
/// keywords between them, then the end of the input.
proof fn lemma_chain_steps(x: ExprV, y: ExprV, z: ExprV, w1: Seq<char>, w2: Seq<char>) -> (r: (
    Seq<u8>,
    int,
    int,
))
    requires
        printable(x),
        printable(y),
        printable(z),
        w1 == "and"@ || w1 == "or"@,
        w2 == "and"@ || w2 == "or"@,
    ensures
        ({
            let (b, p1, p2) = r;
            let q1 = p1 + 1 + w1.len();
            let q2 = p2 + 1 + w2.len();
            &&& b == vstd::utf8::encode_utf8(
                render(x) + (" "@ + w1 + " "@) + render(y) + (" "@ + w2 + " "@) + render(z),
            )
            &&& b.len() == (render(x) + (" "@ + w1 + " "@) + render(y) + (" "@ + w2 + " "@) + render(
                z,
            )).len()
            &&& 0 < p1 < q1 < p2 < q2 < b.len()
            &&& p_not(b, 0) == Step::Done(x, p1)
            &&& read_ident(b, p1) == (w1, q1)
            &&& p_not(b, q1) == Step::Done(y, p2)
            &&& read_ident(b, p2) == (w2, q2)
            &&& p_not(b, q2) == Step::Done(z, b.len() as int)
            &&& read_ident(b, b.len() as int) == (Seq::<char>::empty(), b.len() as int)
            &&& skip_ws(b, b.len() as int) == b.len()
        }),
{
    reveal_strlit("and");
    reveal_strlit("or");
    let b = lemma_chain_layout(x, y, z, w1, w2);
    let p1: int = render(x).len() as int;
    let q1: int = p1 + 1 + w1.len();
    let py: int = p1 + 2 + w1.len();
    let p2: int = py + render(y).len();
    let q2: int = p2 + 1 + w2.len();
    let pz: int = p2 + 2 + w2.len();
    let n = b.len() as int;
    assert(n == pz + render(z).len());
    lemma_render_head(x);
    lemma_render_head(y);
    lemma_head_byte(b, 0, x);
    assert(skip_ws(b, 0) == 0);
    lemma_atom(x, b, 0, 0);
    assert forall|i: int| 0 <= i < w1.len() implies 'a' <= #[trigger] w1[i] <= 'z' by {}
    assert forall|i: int| 0 <= i < w2.len() implies 'a' <= #[trigger] w2[i] <= 'z' by {}
    lemma_keyword_at(b, p1, w1);
    lemma_keyword_at(b, p2, w2);
    lemma_head_byte(b, py, y);
    lemma_head_byte(b, pz, z);
    assert(skip_ws(b, py) == py);
    assert(skip_ws(b, pz) == pz);
    lemma_atom(y, b, q1, py);
    lemma_atom(z, b, q2, pz);
    lemma_no_ident(b, n);
    reveal_strlit(" ");
    (b, p1, p2)
}

proof fn lemma_keywords_differ()
    ensures
        !is_word(Seq::<char>::empty(), "and"@),
        !is_word(Seq::<char>::empty(), "or"@),
        is_word("and"@, "and"@),
        is_word("or"@, "or"@),
        !is_word("or"@, "and"@),
        !is_word("and"@, "or"@),
{
    reveal_strlit("and");
    reveal_strlit("or");
    assert(lower_seq(Seq::<char>::empty()).len() == 0);
    assert(lower_seq("and"@) =~= "and"@);
    assert(lower_seq("or"@) =~= "or"@);
    assert("or"@[0] != "and"@[0]);
}

/// `X or Y and Z` reads as `X or (Y and Z)`.
#[verifier::rlimit(50)]
proof fn lemma_or_and(x: ExprV, y: ExprV, z: ExprV)
    requires
        printable(x),
        printable(y),
        printable(z),
    ensures
        ({
            let t = render(x) + (" "@ + "or"@ + " "@) + render(y) + (" "@ + "and"@ + " "@) + render(z);
            parse_spec(vstd::utf8::encode_utf8(t)) == Step::Done(
                ExprV::Or(Box::new(x), Box::new(ExprV::And(Box::new(y), Box::new(z)))),
                t.len() as int,
            )
        }),
{
    reveal_strlit("and");
    reveal_strlit("or");
    let (b, p1, p2) = lemma_chain_steps(x, y, z, "or"@, "and"@);
    lemma_keywords_differ();
    let n = b.len() as int;
    let q1 = p1 + 3;
    let yz = ExprV::And(Box::new(y), Box::new(z));
    let e = ExprV::Or(Box::new(x), Box::new(yz));
    assert(and_tail(b, p1, x) == Step::Done(x, p1));
    assert(p_and(b, 0) == Step::Done(x, p1));
    assert(and_tail(b, n, yz) == Step::Done(yz, n));
    assert(and_tail(b, p2, y) == Step::Done(yz, n));
    assert(p_and(b, q1) == Step::Done(yz, n));
    assert(or_tail(b, n, e) == Step::Done(e, n));
    assert(or_tail(b, p1, x) == Step::Done(e, n));
    assert(p_or(b, 0) == Step::Done(e, n));
}

/// `X and Y or Z` reads as `(X and Y) or Z`.
#[verifier::rlimit(50)]
proof fn lemma_and_or(x: ExprV, y: ExprV, z: ExprV)
    requires
        printable(x),
        printable(y),
        printable(z),
    ensures
        ({
            let t = render(x) + (" "@ + "and"@ + " "@) + render(y) + (" "@ + "or"@ + " "@) + render(z);
            parse_spec(vstd::utf8::encode_utf8(t)) == Step::Done(
                ExprV::Or(Box::new(ExprV::And(Box::new(x), Box::new(y))), Box::new(z)),
                t.len() as int,
            )
        }),
{
    reveal_strlit("and");
    reveal_strlit("or");
    let (b, p1, p2) = lemma_chain_steps(x, y, z, "and"@, "or"@);
    lemma_keywords_differ();
    let n = b.len() as int;
    let q2 = p2 + 3;
    let xy = ExprV::And(Box::new(x), Box::new(y));
    let e = ExprV::Or(Box::new(xy), Box::new(z));
    assert(and_tail(b, p2, xy) == Step::Done(xy, p2));
    assert(and_tail(b, p1, x) == Step::Done(xy, p2));
    assert(p_and(b, 0) == Step::Done(xy, p2));
    assert(and_tail(b, n, z) == Step::Done(z, n));
    assert(p_and(b, q2) == Step::Done(z, n));
    assert(or_tail(b, n, e) == Step::Done(e, n));
    assert(or_tail(b, p2, xy) == Step::Done(e, n));
    assert(p_or(b, 0) == Step::Done(e, n));
}

/// `X w Y w Z` groups to the left, for `w` one of `and`, `or`.
#[verifier::rlimit(50)]
proof fn lemma_same_twice(x: ExprV, y: ExprV, z: ExprV, w: Seq<char>)
    requires
        printable(x),
        printable(y),
        printable(z),
        w == "and"@ || w == "or"@,
    ensures
        ({
            let t = render(x) + (" "@ + w + " "@) + render(y) + (" "@ + w + " "@) + render(z);
            parse_spec(vstd::utf8::encode_utf8(t)) == Step::Done(
                if w == "and"@ {
                    ExprV::And(Box::new(ExprV::And(Box::new(x), Box::new(y))), Box::new(z))
                } else {
                    ExprV::Or(Box::new(ExprV::Or(Box::new(x), Box::new(y))), Box::new(z))
                },
                t.len() as int,
            )
        }),
{
    reveal_strlit("and");
    reveal_strlit("or");
    let (b, p1, p2) = lemma_chain_steps(x, y, z, w, w);
    lemma_keywords_differ();
    let n = b.len() as int;
    let q1 = p1 + 1 + w.len();
    let q2 = p2 + 1 + w.len();
    if w == "and"@ {
        let xy = ExprV::And(Box::new(x), Box::new(y));
        let e = ExprV::And(Box::new(xy), Box::new(z));
        assert(and_tail(b, n, e) == Step::Done(e, n));
        assert(and_tail(b, p2, xy) == Step::Done(e, n));
        assert(and_tail(b, p1, x) == Step::Done(e, n));
        assert(p_and(b, 0) == Step::Done(e, n));
        assert(or_tail(b, n, e) == Step::Done(e, n));
        assert(p_or(b, 0) == Step::Done(e, n));
    } else {
        let xy = ExprV::Or(Box::new(x), Box::new(y));
        let e = ExprV::Or(Box::new(xy), Box::new(z));
        assert(and_tail(b, p1, x) == Step::Done(x, p1));
        assert(p_and(b, 0) == Step::Done(x, p1));
        assert(and_tail(b, p2, y) == Step::Done(y, p2));
        assert(p_and(b, q1) == Step::Done(y, p2));
        assert(and_tail(b, n, z) == Step::Done(z, n));
        assert(p_and(b, q2) == Step::Done(z, n));
        assert(or_tail(b, n, e) == Step::Done(e, n));
        assert(or_tail(b, p2, xy) == Step::Done(e, n));
        assert(or_tail(b, p1, x) == Step::Done(e, n));
        assert(p_or(b, 0) == Step::Done(e, n));
    }
}

/// Chains of one connective group to the left: for all expressions `X`,
/// `Y`, `Z` whose text reads back, `X and Y and Z` reads as
/// `(X and Y) and Z` and `X or Y or Z` as `(X or Y) or Z`.
pub proof fn lemma_connectives_group_left(x: ExprV, y: ExprV, z: ExprV)
    requires
        printable(x),
        printable(y),
        printable(z),
    ensures
        ({
            let t = render(x) + " and "@ + render(y) + " and "@ + render(z);
            parse_spec(vstd::utf8::encode_utf8(t)) == Step::Done(
                ExprV::And(Box::new(ExprV::And(Box::new(x), Box::new(y))), Box::new(z)),
                t.len() as int,
            )
        }),
        ({
            let t = render(x) + " or "@ + render(y) + " or "@ + render(z);
            parse_spec(vstd::utf8::encode_utf8(t)) == Step::Done(
                ExprV::Or(Box::new(ExprV::Or(Box::new(x), Box::new(y))), Box::new(z)),
                t.len() as int,
            )
        }),
{
    reveal_strlit(" and ");
    reveal_strlit(" or ");
    reveal_strlit(" ");
    reveal_strlit("and");
    reveal_strlit("or");
    assert(" and "@ =~= " "@ + "and"@ + " "@);
    assert(" or "@ =~= " "@ + "or"@ + " "@);
    lemma_same_twice(x, y, z, "and"@);
    lemma_same_twice(x, y, z, "or"@);
}

} // verus!
