//! Character-level scanning of JIL text: comments, lines, words, values.

use vstd::prelude::*;
use crate::jil::error::{JilError, JilErrorV};
use crate::jil::model::{
    attr_value, close_at, first_ascii_ws, first_ws, gather, inline_pairs, lemma_close_at,
    lemma_first_ascii_ws, lemma_first_ws, lemma_next_index, lemma_trim_start, line_pair,
    lines_from, name_and_rest, next_index, strip, trimmed_lines, unescape_quotes, verb_line, words,
};
use crate::text::{
    ascii_ws, find_char, is_ascii_ws, is_unicode_ws, lower_range, lower_seq, string_of, trim,
    trim_bounds, trim_start, unicode_ws,
};

verus! {

/// `o` with `p` put in front of the text it holds.
pub open spec fn prepend(p: Seq<char>, o: Option<Seq<char>>) -> Option<Seq<char>> {
    match o {
        Some(r) => Some(p + r),
        None => None,
    }
}

/// Strip `/* ... */` block comments (which may span lines), each replaced by
/// a line break so that line counting stays sane.
pub fn strip_comments(input: &Vec<char>) -> (r: Result<Vec<char>, JilError>)
    ensures
        match strip(input@) {
            Some(t) => r is Ok && r->Ok_0@ == t,
            None => r is Err && r->Err_0@ == JilErrorV::UnterminatedComment,
        },
{
    let n = input.len();
    let mut out: Vec<char> = Vec::new();
    let mut i: usize = 0;
    assert(input@.subrange(0, n as int) =~= input@);
    while i < n
        invariant
            n == input.len(),
            i <= n,
            prepend(out@, strip(input@.subrange(i as int, n as int))) == strip(input@),
        decreases n - i,
    {
        let ghost sub = input@.subrange(i as int, n as int);
        if i + 1 < n && input[i] == '/' && input[i + 1] == '*' {
            assert(sub[0] == '/' && sub[1] == '*');
            let mut m: usize = 2;
            proof {
                lemma_close_at(sub, 2);
            }
            let mut found = false;
            while m < n - i - 1 && !found
                invariant
                    n == input.len(),
                    i + 1 < n,
                    2 <= m,
                    i + m <= n,
                    sub == input@.subrange(i as int, n as int),
                    !found ==> close_at(sub, 2) == close_at(sub, m as int),
                    found ==> close_at(sub, 2) == Some(m as int) && m + 2 <= sub.len(),
                decreases n - i - m + (if found { 0int } else { 1int }),
            {
                assert(sub[m as int] == input@[i + m] && sub[m + 1] == input@[i + m + 1]);
                if input[i + m] == '*' && input[i + m + 1] == '/' {
                    found = true;
                } else {
                    m = m + 1;
                }
            }
            if !found {
                assert(close_at(sub, m as int) is None);
                assert(strip(sub) is None);
                return Err(JilError::UnterminatedComment);
            }
            out.push('\n');
            let ghost rest = sub.subrange(m + 2, sub.len() as int);
            assert(rest =~= input@.subrange(i + m + 2, n as int));
            i = i + m + 2;
        } else {
            assert(!(sub.len() >= 2 && sub[0] == '/' && sub[1] == '*'));
            assert(sub.drop_first() =~= input@.subrange(i + 1, n as int));
            out.push(input[i]);
            i = i + 1;
        }
    }
    assert(input@.subrange(n as int, n as int).len() == 0);
    Ok(out)
}

/// Bounds in `t` of its trimmed lines.
pub fn line_bounds(t: &Vec<char>) -> (r: Vec<(usize, usize)>)
    ensures
        r@.len() == trimmed_lines(t@).len(),
        forall|k: int|
            0 <= k < r@.len() ==> r@[k].0 <= r@[k].1 <= t@.len() && t@.subrange(
                #[trigger] r@[k].0 as int,
                r@[k].1 as int,
            ) == trimmed_lines(t@)[k],
{
    let n = t.len();
    let mut r: Vec<(usize, usize)> = Vec::new();
    let mut pos: usize = 0;
    let ghost mut done: Seq<Seq<char>> = Seq::empty();
    while pos < n
        invariant
            n == t.len(),
            pos <= n,
            lines_from(t@, 0) == done + lines_from(t@, pos as int),
            r@.len() == done.len(),
            forall|k: int|
                0 <= k < r@.len() ==> r@[k].0 <= r@[k].1 <= t@.len() && t@.subrange(
                    #[trigger] r@[k].0 as int,
                    r@[k].1 as int,
                ) == trim(done[k]),
        decreases n - pos,
    {
        proof {
            lemma_next_index(t@, '\n', pos as int);
        }
        let mut e = pos;
        while e < n && t[e] != '\n'
            invariant
                n == t.len(),
                pos <= e <= n,
                next_index(t@, '\n', pos as int) == next_index(t@, '\n', e as int),
            decreases n - e,
        {
            e = e + 1;
        }
        let (a, b) = trim_bounds(t, pos, e);
        r.push((a, b));
        proof {
            done = done.push(t@.subrange(pos as int, e as int));
        }
        if e < n {
            pos = e + 1;
        } else {
            assert(lines_from(t@, n as int) =~= Seq::<Seq<char>>::empty());
            pos = n;
        }
    }
    assert(lines_from(t@, pos as int) =~= Seq::<Seq<char>>::empty());
    assert(done =~= lines_from(t@, 0));
    r
}

/// `trim_start` of a sequence whose whitespace prefix ends at `a`.
pub proof fn lemma_trim_start_at(s: Seq<char>, a: int)
    requires
        0 <= a <= s.len(),
        forall|k: int| 0 <= k < a ==> is_unicode_ws(#[trigger] s[k]),
        a == s.len() || !is_unicode_ws(s[a]),
    ensures
        trim_start(s) == s.subrange(a, s.len() as int),
    decreases a,
{
    if a == 0 {
        assert(s.subrange(0, s.len() as int) =~= s);
        if s.len() > 0 {
            assert(!is_unicode_ws(s[0]));
        }
    } else {
        let d = s.drop_first();
        assert forall|k: int| 0 <= k < a - 1 implies is_unicode_ws(#[trigger] d[k]) by {
            assert(d[k] == s[k + 1]);
        }
        if a < s.len() {
            assert(d[a - 1] == s[a]);
        }
        lemma_trim_start_at(d, a - 1);
        assert(d.subrange(a - 1, d.len() as int) =~= s.subrange(a, s.len() as int));
    }
}

/// `first_ws` of a sequence whose non-whitespace run from `i` ends at `b`.
pub proof fn lemma_first_ws_at(s: Seq<char>, i: int, b: int)
    requires
        0 <= i <= b <= s.len(),
        forall|k: int| i <= k < b ==> !is_unicode_ws(#[trigger] s[k]),
        b == s.len() || is_unicode_ws(s[b]),
    ensures
        first_ws(s, i) == b,
    decreases b - i,
{
    if i < b {
        lemma_first_ws_at(s, i + 1, b);
    }
}

/// `first_ascii_ws` of a sequence whose run without ASCII whitespace from `i` ends at `b`.
pub proof fn lemma_first_ascii_ws_at(s: Seq<char>, i: int, b: int)
    requires
        0 <= i <= b <= s.len(),
        forall|k: int| i <= k < b ==> !is_ascii_ws(#[trigger] s[k]),
        b == s.len() || is_ascii_ws(s[b]),
    ensures
        first_ascii_ws(s, i) == b,
    decreases b - i,
{
    if i < b {
        lemma_first_ascii_ws_at(s, i + 1, b);
    }
}

/// `find_char` when the first `c` is at `k`.
pub proof fn lemma_find_char_at(s: Seq<char>, c: char, k: int)
    requires
        0 <= k < s.len(),
        s[k] == c,
        forall|j: int| 0 <= j < k ==> s[j] != c,
    ensures
        find_char(s, c) == Some(k),
{
    let w = choose|i: int| 0 <= i < s.len() && s[i] == c && forall|j: int| 0 <= j < i ==> s[j] != c;
    assert(0 <= k < s.len() && s[k] == c && forall|j: int| 0 <= j < k ==> s[j] != c);
    assert(find_char(s, c) is Some);
    if w < k {
        assert(s[w] != c);
    }
    if w > k {
        assert(s[k] != c);
    }
}

/// First `c` in `v[lo..hi]`, as an index into `v`.
pub fn find_in(v: &Vec<char>, lo: usize, hi: usize, c: char) -> (r: Option<usize>)
    requires
        lo <= hi <= v.len(),
    ensures
        match find_char(v@.subrange(lo as int, hi as int), c) {
            Some(k) => r == Some((lo + k) as usize),
            None => r is None,
        },
        r is Some ==> lo <= r->0 < hi,
{
    let ghost sub = v@.subrange(lo as int, hi as int);
    let mut i = lo;
    while i < hi
        invariant
            lo <= i <= hi <= v.len(),
            sub == v@.subrange(lo as int, hi as int),
            forall|j: int| 0 <= j < i - lo ==> sub[j] != c,
        decreases hi - i,
    {
        if v[i] == c {
            proof {
                lemma_find_char_at(sub, c, i - lo);
            }
            return Some(i);
        }
        i = i + 1;
    }
    assert(!(exists|j: int| 0 <= j < sub.len() && sub[j] == c));
    None
}

/// Index of the first `c` in `v[lo..hi]` (as an index into `v`), or `hi`.
pub fn index_in(v: &Vec<char>, lo: usize, hi: usize, c: char) -> (r: usize)
    requires
        lo <= hi <= v.len(),
    ensures
        lo <= r <= hi,
        r - lo == next_index(v@.subrange(lo as int, hi as int), c, 0),
{
    let ghost sub = v@.subrange(lo as int, hi as int);
    let mut i = lo;
    while i < hi && v[i] != c
        invariant
            lo <= i <= hi <= v.len(),
            sub == v@.subrange(lo as int, hi as int),
            next_index(sub, c, 0) == next_index(sub, c, i - lo),
        decreases hi - i,
    {
        assert(sub[i - lo] == v@[i as int]);
        i = i + 1;
    }
    if i < hi {
        assert(sub[i - lo] == v@[i as int]);
    }
    i
}

/// Bounds of the words of `v[lo..hi]` (`split_whitespace`).
pub fn word_bounds(v: &Vec<char>, lo: usize, hi: usize) -> (r: Vec<(usize, usize)>)
    requires
        lo <= hi <= v.len(),
    ensures
        r@.len() == words(v@.subrange(lo as int, hi as int)).len(),
        forall|k: int|
            0 <= k < r@.len() ==> lo <= r@[k].0 <= r@[k].1 <= hi && v@.subrange(
                #[trigger] r@[k].0 as int,
                r@[k].1 as int,
            ) == words(v@.subrange(lo as int, hi as int))[k],
{
    let mut r: Vec<(usize, usize)> = Vec::new();
    let mut pos = lo;
    let ghost mut done: Seq<Seq<char>> = Seq::empty();
    while pos < hi
        invariant
            lo <= pos <= hi <= v.len(),
            words(v@.subrange(lo as int, hi as int)) == done + words(
                v@.subrange(pos as int, hi as int),
            ),
            r@.len() == done.len(),
            forall|k: int|
                0 <= k < r@.len() ==> lo <= r@[k].0 <= r@[k].1 <= hi && v@.subrange(
                    #[trigger] r@[k].0 as int,
                    r@[k].1 as int,
                ) == done[k],
        decreases hi - pos,
    {
        let ghost sub = v@.subrange(pos as int, hi as int);
        let mut a = pos;
        while a < hi && unicode_ws(v[a])
            invariant
                pos <= a <= hi <= v.len(),
                forall|k: int| pos <= k < a ==> is_unicode_ws(#[trigger] v@[k]),
            decreases hi - a,
        {
            a = a + 1;
        }
        proof {
            assert forall|k: int| 0 <= k < a - pos implies is_unicode_ws(#[trigger] sub[k]) by {
                assert(sub[k] == v@[pos + k]);
            }
            if a < hi {
                assert(sub[a - pos] == v@[a as int]);
            }
            lemma_trim_start_at(sub, a - pos);
            assert(sub.subrange(a - pos, sub.len() as int) =~= v@.subrange(a as int, hi as int));
        }
        if a == hi {
            assert(words(sub) =~= Seq::<Seq<char>>::empty());
            pos = hi;
        } else {
            let mut b = a;
            while b < hi && !unicode_ws(v[b])
                invariant
                    a <= b <= hi <= v.len(),
                    forall|k: int| a <= k < b ==> !is_unicode_ws(#[trigger] v@[k]),
                decreases hi - b,
            {
                b = b + 1;
            }
            proof {
                let t = v@.subrange(a as int, hi as int);
                assert forall|k: int| 0 <= k < b - a implies !is_unicode_ws(#[trigger] t[k]) by {
                    assert(t[k] == v@[a + k]);
                }
                if b < hi {
                    assert(t[b - a] == v@[b as int]);
                }
                lemma_first_ws_at(t, 0, b - a);
                assert(t.subrange(0, b - a) =~= v@.subrange(a as int, b as int));
                assert(t.subrange(b - a, t.len() as int) =~= v@.subrange(b as int, hi as int));
                done = done.push(v@.subrange(a as int, b as int));
            }
            let ghost before = r@;
            r.push((a, b));
            assert(forall|k: int| 0 <= k < before.len() ==> r@[k] == before[k]);
            assert(r@[before.len() as int] == (a, b));
            pos = b;
        }
    }
    assert(words(v@.subrange(pos as int, hi as int)) =~= Seq::<Seq<char>>::empty());
    assert(done =~= words(v@.subrange(lo as int, hi as int)));
    r
}

/// `unescape_quotes` of `v[lo..hi]`.
pub fn unescape_range(v: &Vec<char>, lo: usize, hi: usize) -> (r: String)
    requires
        lo <= hi <= v.len(),
    ensures
        r@ == unescape_quotes(v@.subrange(lo as int, hi as int)),
{
    let mut out = String::new();
    let mut j = lo;
    while j < hi
        invariant
            lo <= j <= hi <= v.len(),
            unescape_quotes(v@.subrange(lo as int, hi as int)) == out@ + unescape_quotes(
                v@.subrange(j as int, hi as int),
            ),
        decreases hi - j,
    {
        let ghost sub = v@.subrange(j as int, hi as int);
        if j + 1 < hi && v[j] == '\\' && v[j + 1] == '"' {
            assert(sub[0] == '\\' && sub[1] == '"');
            assert(sub.subrange(2, sub.len() as int) =~= v@.subrange(j + 2, hi as int));
            crate::text::push_char(&mut out, '"');
            j = j + 2;
        } else {
            assert(sub[0] == v@[j as int]);
            assert(sub.drop_first() =~= v@.subrange(j + 1, hi as int));
            crate::text::push_char(&mut out, v[j]);
            j = j + 1;
        }
        assert(out@ + unescape_quotes(v@.subrange(j as int, hi as int)) =~= unescape_quotes(
            v@.subrange(lo as int, hi as int),
        ));
    }
    assert(unescape_quotes(v@.subrange(j as int, hi as int)) =~= Seq::<char>::empty());
    out
}

/// `attr_value` of `v[lo..hi]`.
pub fn attr_value_range(v: &Vec<char>, lo: usize, hi: usize) -> (r: String)
    requires
        lo <= hi <= v.len(),
    ensures
        r@ == attr_value(v@.subrange(lo as int, hi as int)),
{
    let (a, b) = trim_bounds(v, lo, hi);
    let ghost t = v@.subrange(a as int, b as int);
    if b - a >= 2 && v[a] == '"' && v[b - 1] == '"' {
        assert(t[0] == v@[a as int] && t.last() == v@[b - 1]);
        assert(t.subrange(1, t.len() - 1) =~= v@.subrange(a + 1, b - 1));
        unescape_range(v, a + 1, b - 1)
    } else {
        string_of(v, a, b)
    }
}

/// Bounds of the job name and of the trimmed rest, in `v[lo..hi]` read as a
/// verb's value (`name_and_rest`).
pub fn name_and_rest_bounds(v: &Vec<char>, lo: usize, hi: usize) -> (r: ((usize, usize), (usize, usize)))
    requires
        lo <= hi <= v.len(),
    ensures
        lo <= r.0.0 <= r.0.1 <= hi,
        lo <= r.1.0 <= r.1.1 <= hi,
        v@.subrange(r.0.0 as int, r.0.1 as int) == name_and_rest(v@.subrange(lo as int, hi as int)).0,
        v@.subrange(r.1.0 as int, r.1.1 as int) == name_and_rest(v@.subrange(lo as int, hi as int)).1,
{
    let (a, b) = trim_bounds(v, lo, hi);
    let mut e = a;
    while e < b && !ascii_ws(v[e])
        invariant
            a <= e <= b <= v.len(),
            forall|k: int| a <= k < e ==> !is_ascii_ws(#[trigger] v@[k]),
        decreases b - e,
    {
        e = e + 1;
    }
    let (c, d) = trim_bounds(v, e, b);
    proof {
        let t = v@.subrange(a as int, b as int);
        assert forall|k: int| 0 <= k < e - a implies !is_ascii_ws(#[trigger] t[k]) by {
            assert(t[k] == v@[a + k]);
        }
        if e < b {
            assert(t[e - a] == v@[e as int]);
        }
        lemma_first_ascii_ws_at(t, 0, e - a);
        assert(t.subrange(0, e - a) =~= v@.subrange(a as int, e as int));
        assert(t.subrange(e - a, t.len() as int) =~= v@.subrange(e as int, b as int));
    }
    ((a, e), (c, d))
}

/// Attribute pairs by their characters.
pub open spec fn pairs_view(v: Seq<(String, String)>) -> Seq<(Seq<char>, Seq<char>)> {
    v.map_values(|p: (String, String)| (p.0@, p.1@))
}

/// Lower-cased `v[lo..hi]` as a `String`.
pub fn lower_string(v: &Vec<char>, lo: usize, hi: usize) -> (r: String)
    requires
        lo <= hi <= v.len(),
    ensures
        r@ == lower_seq(v@.subrange(lo as int, hi as int)),
{
    let l = lower_range(v, lo, hi);
    let r = string_of(&l, 0, l.len());
    assert(l@.subrange(0, l@.len() as int) =~= l@);
    r
}

proof fn lemma_pairs_push(v: Seq<(String, String)>, p: (String, String))
    ensures
        pairs_view(v.push(p)) == pairs_view(v).push((p.0@, p.1@)),
{
    assert(pairs_view(v.push(p)) =~= pairs_view(v).push((p.0@, p.1@)));
}

/// The pair `p` (if any) as a sequence of pair views.
pub open spec fn opt_pair(p: Option<(String, String)>) -> Seq<(Seq<char>, Seq<char>)> {
    match p {
        Some(q) => seq![(q.0@, q.1@)],
        None => Seq::empty(),
    }
}

/// One step of `inline_pairs` on the words `rest`, whose first word is
/// `v[a..b]` and whose second, if any, is at `next`: the pair read (if any)
/// and how many words it used (0 when reading stops).
fn inline_step(
    v: &Vec<char>,
    a: usize,
    b: usize,
    next: Option<(usize, usize)>,
    Ghost(rest): Ghost<Seq<Seq<char>>>,
) -> (r: (Option<(String, String)>, usize))
    requires
        a <= b <= v@.len(),
        rest.len() > 0,
        v@.subrange(a as int, b as int) == rest[0],
        next is Some <==> rest.len() > 1,
        match next {
            Some((c, d)) => c <= d <= v@.len() && v@.subrange(c as int, d as int) == rest[1],
            None => true,
        },
    ensures
        r.1 <= 2,
        r.1 <= rest.len(),
        r.1 == 0 ==> inline_pairs(rest) == opt_pair(r.0),
        r.1 > 0 ==> inline_pairs(rest) == opt_pair(r.0) + inline_pairs(
            rest.subrange(r.1 as int, rest.len() as int),
        ),
{
    let ghost tok = v@.subrange(a as int, b as int);
    reveal(inline_pairs);
    if b > a && v[b - 1] == ':' {
        assert(tok.last() == ':');
        assert(tok.drop_last() =~= v@.subrange(a as int, b - 1));
        match next {
            Some((c, d)) => {
                let key = lower_string(v, a, b - 1);
                let value = string_of(v, c, d);
                (Some((key, value)), 2)
            },
            None => (None, 0),
        }
    } else {
        assert(!(tok.len() > 0 && tok.last() == ':'));
        let c = index_in(v, a, b, ':');
        if c < b {
            let ghost ci = (c - a) as int;
            assert(tok.subrange(0, ci) =~= v@.subrange(a as int, c as int));
            assert(tok.subrange(ci + 1, tok.len() as int) =~= v@.subrange(c + 1, b as int));
            if c + 1 < b {
                let key = lower_string(v, a, c);
                let value = string_of(v, c + 1, b);
                assert(rest.drop_first() =~= rest.subrange(1, rest.len() as int));
                (Some((key, value)), 1)
            } else {
                match next {
                    Some((e, f)) => {
                        let key = lower_string(v, a, c);
                        let value = string_of(v, e, f);
                        (Some((key, value)), 2)
                    },
                    None => (None, 0),
                }
            }
        } else {
            assert(rest.drop_first() =~= rest.subrange(1, rest.len() as int));
            (None, 1)
        }
    }
}

/// `key: value` pairs among the words at `toks` (bounds into `v`) as
/// `inline_pairs` reads them.
pub fn collect_inline_attrs(v: &Vec<char>, toks: &Vec<(usize, usize)>, Ghost(ws): Ghost<Seq<Seq<char>>>) -> (r: Vec<(String, String)>)
    requires
        toks@.len() == ws.len(),
        forall|k: int|
            0 <= k < toks@.len() ==> toks@[k].0 <= toks@[k].1 <= v@.len() && v@.subrange(
                #[trigger] toks@[k].0 as int,
                toks@[k].1 as int,
            ) == ws[k],
    ensures
        pairs_view(r@) == inline_pairs(ws),
{
    let n = toks.len();
    let mut out: Vec<(String, String)> = Vec::new();
    let mut w: usize = 0;
    assert(ws.subrange(0, n as int) =~= ws);
    while w < n
        invariant
            n == toks@.len(),
            toks@.len() == ws.len(),
            forall|k: int|
                0 <= k < toks@.len() ==> toks@[k].0 <= toks@[k].1 <= v@.len() && v@.subrange(
                    #[trigger] toks@[k].0 as int,
                    toks@[k].1 as int,
                ) == ws[k],
            w <= n,
            inline_pairs(ws) == pairs_view(out@) + inline_pairs(ws.subrange(w as int, n as int)),
        decreases n - w,
    {
        let ghost rest = ws.subrange(w as int, n as int);
        let (a, b) = toks[w];
        let next = if w + 1 < n {
            Some(toks[w + 1])
        } else {
            None
        };
        assert(rest[0] == ws[w as int]);
        if w + 1 < n {
            assert(rest[1] == ws[w + 1]);
            assert(v@.subrange(toks@[w + 1].0 as int, toks@[w + 1].1 as int) == ws[w + 1]);
        }
        let (p, used) = inline_step(v, a, b, next, Ghost(rest));
        let ghost before = out@;
        match p {
            Some(q) => {
                out.push(q);
            },
            None => {},
        }
        assert(pairs_view(out@) =~= pairs_view(before) + opt_pair(p));
        if used == 0 {
            assert(inline_pairs(ws.subrange(n as int, n as int)) =~= Seq::<(Seq<char>, Seq<char>)>::empty()) by {
                reveal(inline_pairs);
            }
            assert(pairs_view(out@) + Seq::<(Seq<char>, Seq<char>)>::empty() =~= pairs_view(out@));
            w = n;
        } else {
            assert(rest.subrange(used as int, rest.len() as int) =~= ws.subrange(w + used, n as int));
            w = w + used;
        }
    }
    assert(inline_pairs(ws.subrange(n as int, n as int)) =~= Seq::<(Seq<char>, Seq<char>)>::empty()) by {
        reveal(inline_pairs);
    }
    assert(pairs_view(out@) =~= pairs_view(out@) + Seq::<(Seq<char>, Seq<char>)>::empty());
    out
}

/// `tl` holds, in order, the bounds in `t` of the lines `ls`.
pub open spec fn lines_at(t: Seq<char>, tl: Seq<(usize, usize)>, ls: Seq<Seq<char>>) -> bool {
    &&& tl.len() == ls.len()
    &&& forall|k: int|
        0 <= k < tl.len() ==> tl[k].0 <= tl[k].1 <= t.len() && t.subrange(
            #[trigger] tl[k].0 as int,
            tl[k].1 as int,
        ) == ls[k]
}

/// `v[lo..hi]`, lower-cased, starts with `lit` (an ASCII lower-case word).
fn starts_with_lower(v: &Vec<char>, lo: usize, hi: usize, lit: &str) -> (r: bool)
    requires
        lo <= hi <= v.len(),
    ensures
        r == crate::text::starts_with(lower_seq(v@.subrange(lo as int, hi as int)), lit@),
{
    let n = lit.len();
    let lv = crate::text::chars_vec(lit);
    if hi - lo < lv.len() {
        return false;
    }
    let l = lower_range(v, lo, lo + lv.len());
    assert(lower_seq(v@.subrange(lo as int, hi as int)).subrange(0, lv@.len() as int) =~= lower_seq(
        v@.subrange(lo as int, lo + lv@.len()),
    ));
    crate::text::vec_eq(&l, &lv)
}

/// The line `v[lo..hi]` begins a new block.
pub fn is_verb_line(v: &Vec<char>, lo: usize, hi: usize) -> (r: bool)
    requires
        lo <= hi <= v.len(),
    ensures
        r == verb_line(v@.subrange(lo as int, hi as int)),
{
    starts_with_lower(v, lo, hi, "insert_job") || starts_with_lower(v, lo, hi, "update_job")
        || starts_with_lower(v, lo, hi, "delete_job")
}

/// Consumes attribute lines from line `*i` on, up to a blank line, a verb
/// line or the end, adding their pairs to `attrs`.
pub fn gather_attrs(
    t: &Vec<char>,
    tl: &Vec<(usize, usize)>,
    i: &mut usize,
    attrs: &mut Vec<(String, String)>,
    Ghost(ls): Ghost<Seq<Seq<char>>>,
)
    requires
        lines_at(t@, tl@, ls),
    ensures
        pairs_view(final(attrs)@) == pairs_view(old(attrs)@) + gather(ls, *old(i) as int).0,
        *final(i) as int == gather(ls, *old(i) as int).1,
{
    let ghost i0 = *i as int;
    let ghost a0 = pairs_view(attrs@);
    while *i < tl.len()
        invariant
            lines_at(t@, tl@, ls),
            i0 <= *i,
            pairs_view(attrs@) + gather(ls, *i as int).0 == a0 + gather(ls, i0).0,
            gather(ls, *i as int).1 == gather(ls, i0).1,
        ensures
            lines_at(t@, tl@, ls),
            pairs_view(attrs@) + gather(ls, *i as int).0 == a0 + gather(ls, i0).0,
            gather(ls, *i as int).1 == gather(ls, i0).1,
            gather(ls, *i as int).0.len() == 0,
            gather(ls, *i as int).1 == *i as int,
        decreases tl.len() - *i,
    {
        let (a, b) = tl[*i];
        let ghost line = ls[*i as int];
        assert(t@.subrange(tl@[*i as int].0 as int, tl@[*i as int].1 as int) == ls[*i as int]);
        if a == b {
            assert(line.len() == 0);
            break;
        } else if is_verb_line(t, a, b) {
            break;
        } else {
            let c = index_in(t, a, b, ':');
            if c < b {
                let (ka, kb) = trim_bounds(t, a, c);
                let key = lower_string(t, ka, kb);
                let value = attr_value_range(t, c + 1, b);
                proof {
                    let ci = (c - a) as int;
                    assert(line.subrange(0, ci) =~= t@.subrange(a as int, c as int));
                    assert(line.subrange(ci + 1, line.len() as int) =~= t@.subrange(c + 1, b as int));
                    lemma_pairs_push(attrs@, (key, value));
                }
                let ghost before = pairs_view(attrs@);
                attrs.push((key, value));
                assert(pairs_view(attrs@) + gather(ls, *i + 1).0 =~= before + gather(ls, *i as int).0);
            }
            *i = *i + 1;
        }
    }
    assert(pairs_view(attrs@) =~= pairs_view(attrs@) + gather(ls, *i as int).0);
}

} // verus!
