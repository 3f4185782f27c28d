//! The JIL reader: comments stripped, lines trimmed, blocks read from verb
//! lines, as [`crate::jil::model`] states it.

use vstd::prelude::*;
use crate::jil::attrs::{build_job_spec, build_partial_spec};
use crate::jil::error::{JilError, JilErrorV};
use crate::jil::model::{
    block_end, blocks_from, jil_blocks, name_and_rest, trimmed_lines, verb_of, verb_step, verb_value,
    words,
};
use crate::jil::scan::{
    collect_inline_attrs, gather_attrs, index_in, line_bounds, lines_at, name_and_rest_bounds,
    strip_comments, word_bounds,
};
use crate::jil::{JilBlock, JilBlockV};
use crate::text::{chars_vec, ends_with, lower_range, lower_seq, string_of, trim, trim_bounds, vec_eq_lit};

verus! {

/// Blocks by their models.
pub open spec fn blocks_view(v: Seq<JilBlock>) -> Seq<JilBlockV> {
    v.map_values(|b: JilBlock| b@)
}

/// `r` with the blocks `p` put in front of what it holds.
pub open spec fn prepend_blocks(p: Seq<JilBlockV>, r: Result<Seq<JilBlockV>, JilErrorV>) -> Result<
    Seq<JilBlockV>,
    JilErrorV,
> {
    match r {
        Ok(s) => Ok(p + s),
        Err(e) => Err(e),
    }
}

/// The `_job` suffix test on a lower-cased verb (`looks_like_verb`).
fn looks_like_verb(v: &Vec<char>) -> (r: bool)
    ensures
        r == ends_with(v@, "_job"@),
{
    let lit = chars_vec("_job");
    if v.len() < lit.len() {
        return false;
    }
    let start = v.len() - lit.len();
    let mut k: usize = 0;
    while k < lit.len()
        invariant
            start + lit.len() == v.len(),
            k <= lit.len(),
            lit@ == "_job"@,
            forall|j: int| 0 <= j < k ==> v@[start + j] == lit@[j],
        decreases lit.len() - k,
    {
        if v[start + k] != lit[k] {
            assert(v@.subrange(start as int, v@.len() as int)[k as int] != lit@[k as int]);
            return false;
        }
        k = k + 1;
    }
    assert(v@.subrange(start as int, v@.len() as int) =~= lit@);
    true
}

/// Reads the block that line `*i` starts, if it is a verb line, and moves
/// `*i` past that block; leaves `*i` alone when the line is no verb line.
fn try_parse_verb_line(
    t: &Vec<char>,
    tl: &Vec<(usize, usize)>,
    i: &mut usize,
    Ghost(ls): Ghost<Seq<Seq<char>>>,
) -> (r: Result<Option<JilBlock>, JilError>)
    requires
        lines_at(t@, tl@, ls),
        *old(i) < tl.len(),
    ensures
        match verb_step(ls, *old(i) as int) {
            Err(e) => r is Err && r->Err_0@ == e,
            Ok(None) => r matches Ok(None) && *final(i) == *old(i),
            Ok(Some(b)) => r matches Ok(Some(x)) && x@ == b && *final(i) as int == block_end(
                ls,
                *old(i) as int,
            ),
        },
{
    reveal(verb_step);
    let ghost i0 = *i as int;
    let (a, b) = tl[*i];
    let ghost line = ls[i0];
    assert(t@.subrange(tl@[i0].0 as int, tl@[i0].1 as int) == ls[i0]);
    let c = index_in(t, a, b, ':');
    if c == b {
        return Ok(None);
    }
    let ghost ci = (c - a) as int;
    assert(line.subrange(0, ci) =~= t@.subrange(a as int, c as int));
    assert(line.subrange(ci + 1, line.len() as int) =~= t@.subrange(c + 1, b as int));
    let (va, vb) = trim_bounds(t, a, c);
    let vl = lower_range(t, va, vb);
    let (rs, re) = trim_bounds(t, c + 1, b);
    let line_number = *i + 1;
    let ghost verb = t@.subrange(va as int, vb as int);
    assert(verb_of(line) == Some(verb));
    assert(verb_value(line) == t@.subrange(rs as int, re as int));
    let is_insert = vec_eq_lit(&vl, "insert_job");
    let is_update = vec_eq_lit(&vl, "update_job");
    if is_insert || is_update {
        let ((na, nb), (xa, xb)) = name_and_rest_bounds(t, rs, re);
        let toks = word_bounds(t, xa, xb);
        assert forall|k: int| 0 <= k < toks@.len() implies toks@[k].0 <= toks@[k].1 <= t@.len()
            && t@.subrange(#[trigger] toks@[k].0 as int, toks@[k].1 as int) == words(
            t@.subrange(xa as int, xb as int),
        )[k] by {}
        let mut attrs = collect_inline_attrs(
            t,
            &toks,
            Ghost(words(t@.subrange(xa as int, xb as int))),
        );
        *i = *i + 1;
        gather_attrs(t, tl, i, &mut attrs, Ghost(ls));
        let name = string_of(t, na, nb);
        if is_insert {
            let spec = build_job_spec(name.as_str(), attrs)?;
            Ok(Some(JilBlock::Insert(spec)))
        } else {
            let partial = build_partial_spec(attrs);
            Ok(Some(JilBlock::Update(name, partial)))
        }
    } else if vec_eq_lit(&vl, "delete_job") {
        let ((na, nb), _) = name_and_rest_bounds(t, rs, re);
        *i = *i + 1;
        Ok(Some(JilBlock::Delete(string_of(t, na, nb))))
    } else if looks_like_verb(&vl) {
        Err(JilError::UnknownVerb(string_of(t, va, vb), line_number))
    } else {
        Ok(None)
    }
}

/// Parse JIL text into a list of [`JilBlock`]s.
///
/// Warnings about unknown attributes are embedded in each block's `warnings`
/// field rather than being returned as errors.
pub fn parse(input: &str) -> (r: Result<Vec<JilBlock>, JilError>)
    ensures
        match jil_blocks(input@) {
            Ok(bs) => r is Ok && blocks_view(r->Ok_0@) == bs,
            Err(e) => r is Err && r->Err_0@ == e,
        },
{
    let v = chars_vec(input);
    let t = strip_comments(&v)?;
    let tl = line_bounds(&t);
    let ghost ls = trimmed_lines(t@);
    assert(v@ == input@);
    let mut blocks: Vec<JilBlock> = Vec::new();
    let mut i: usize = 0;
    while i < tl.len()
        invariant
            lines_at(t@, tl@, ls),
            ls == trimmed_lines(t@),
            jil_blocks(input@) == blocks_from(ls, 0),
            i <= tl@.len(),
            blocks_from(ls, 0) == prepend_blocks(blocks_view(blocks@), blocks_from(ls, i as int)),
        decreases tl.len() - i,
    {
        let (a, b) = tl[i];
        assert(t@.subrange(tl@[i as int].0 as int, tl@[i as int].1 as int) == ls[i as int]);
        if a == b {
            i = i + 1;
        } else {
            let ghost i0 = i as int;
            proof {
                crate::jil::model::lemma_block_end(ls, i0);
                assert(ls[i0].len() > 0);
                assert(blocks_from(ls, i0) == match verb_step(ls, i0) {
                    Err(e) => Err(e),
                    Ok(None) => blocks_from(ls, i0 + 1),
                    Ok(Some(b)) => match blocks_from(ls, block_end(ls, i0)) {
                        Ok(rest) => Ok(seq![b] + rest),
                        Err(e) => Err(e),
                    },
                });
            }
            match try_parse_verb_line(&t, &tl, &mut i, Ghost(ls)) {
                Err(e) => {
                    assert(blocks_from(ls, i0) == Err::<Seq<JilBlockV>, JilErrorV>(e@));
                    assert(blocks_from(ls, 0) == Err::<Seq<JilBlockV>, JilErrorV>(e@));
                    assert(jil_blocks(input@) == blocks_from(ls, 0));
                    return Err(e);
                },
                Ok(None) => {
                    i = i + 1;
                },
                Ok(Some(block)) => {
                    let ghost before = blocks_view(blocks@);
                    blocks.push(block);
                    assert(blocks_view(blocks@) =~= before.push(block@));
                    assert(before + (seq![block@] + Seq::<JilBlockV>::empty()) =~= blocks_view(blocks@));
                    assert(forall|s: Seq<JilBlockV>| #![auto] before + (seq![block@] + s) =~= blocks_view(blocks@) + s);
                },
            }
        }
    }
    assert(blocks_from(ls, i as int) == Ok::<Seq<JilBlockV>, JilErrorV>(Seq::empty()));
    assert(blocks_view(blocks@) + Seq::<JilBlockV>::empty() =~= blocks_view(blocks@));
    Ok(blocks)
}

} // verus!
