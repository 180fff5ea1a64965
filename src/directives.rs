//! Text of comment directives: `// @deno-types="..."` before an import, and
//! `/// <reference path|lib|types="..." />` at the top of a module.
//!
//! Every operation works on a window `[lo, hi)` of a comment's characters,
//! so that each result is a piece of the comment's own text.
use vstd::prelude::*;

verus! {

/// Unicode's White_Space characters, which `char::is_whitespace` accepts.
pub open spec fn is_whitespace(c: char) -> bool {
    let u = c as u32;
    (0x9 <= u <= 0xd) || u == 0x20 || u == 0x85 || u == 0xa0 || u == 0x1680 || (0x2000 <= u
        <= 0x200a) || u == 0x2028 || u == 0x2029 || u == 0x202f || u == 0x205f || u == 0x3000
}

pub fn whitespace(c: char) -> (r: bool)
    ensures
        r == is_whitespace(c),
{
    let u = c as u32;
    (0x9 <= u && u <= 0xd) || u == 0x20 || u == 0x85 || u == 0xa0 || u == 0x1680 || (0x2000 <= u
        && u <= 0x200a) || u == 0x2028 || u == 0x2029 || u == 0x202f || u == 0x205f || u == 0x3000
}

pub open spec fn trim_start_ws(s: Seq<char>) -> Seq<char>
    decreases s.len(),
{
    if s.len() > 0 && is_whitespace(s[0]) {
        trim_start_ws(s.drop_first())
    } else {
        s
    }
}

pub open spec fn trim_end_ws(s: Seq<char>) -> Seq<char>
    decreases s.len(),
{
    if s.len() > 0 && is_whitespace(s.last()) {
        trim_end_ws(s.drop_last())
    } else {
        s
    }
}

pub open spec fn has_prefix(s: Seq<char>, p: Seq<char>) -> bool {
    p.len() <= s.len() && s.subrange(0, p.len() as int) == p
}

pub open spec fn has_suffix(s: Seq<char>, p: Seq<char>) -> bool {
    p.len() <= s.len() && s.subrange(s.len() - p.len(), s.len() as int) == p
}

/// `s` with every leading repetition of `p` removed.
pub open spec fn trim_start_matches(s: Seq<char>, p: Seq<char>) -> Seq<char>
    decreases s.len(),
{
    if p.len() > 0 && has_prefix(s, p) {
        trim_start_matches(s.subrange(p.len() as int, s.len() as int), p)
    } else {
        s
    }
}

/// `s` with every trailing repetition of `p` removed.
pub open spec fn trim_end_matches(s: Seq<char>, p: Seq<char>) -> Seq<char>
    decreases s.len(),
{
    if p.len() > 0 && has_suffix(s, p) {
        trim_end_matches(s.subrange(0, s.len() - p.len()), p)
    } else {
        s
    }
}

pub open spec fn count_char(s: Seq<char>, c: char) -> nat
    decreases s.len(),
{
    if s.len() == 0 {
        0
    } else {
        count_char(s.drop_last(), c) + if s.last() == c {
            1nat
        } else {
            0nat
        }
    }
}

/// What follows the first `c` in `s`; empty if there is none.
pub open spec fn after_char(s: Seq<char>, c: char) -> Seq<char>
    decreases s.len(),
{
    if s.len() == 0 {
        s
    } else if s[0] == c {
        s.drop_first()
    } else {
        after_char(s.drop_first(), c)
    }
}

/// A specifier without the quotes around it: leading `"` then `'`, trailing
/// `"` then `'`.
pub open spec fn strip_quotes(s: Seq<char>) -> Seq<char> {
    trim_end_matches(
        trim_end_matches(trim_start_matches(trim_start_matches(s, seq!['"']), seq!['\'']), seq!['"']),
        seq!['\''],
    )
}

/// The characters of a text.
pub fn chars_of(s: &str) -> (r: Vec<char>)
    ensures
        r@ == s@,
{
    let n = s.unicode_len();
    let mut r: Vec<char> = Vec::new();
    let mut i: usize = 0;
    while i < n
        invariant
            n == s@.len(),
            i <= n,
            r@ == s@.take(i as int),
        decreases n - i,
    {
        let c = s.get_char(i);
        r.push(c);
        proof {
            assert(s@.take(i as int + 1) =~= s@.take(i as int).push(c));
        }
        i = i + 1;
    }
    proof {
        assert(s@.take(n as int) =~= s@);
    }
    r
}

pub fn window_has_prefix(cs: &Vec<char>, lo: usize, hi: usize, p: &Vec<char>) -> (r: bool)
    requires
        lo <= hi <= cs.len(),
    ensures
        r == has_prefix(cs@.subrange(lo as int, hi as int), p@),
{
    if p.len() > hi - lo {
        return false;
    }
    let mut j: usize = 0;
    while j < p.len()
        invariant
            lo <= hi <= cs.len(),
            p.len() <= hi - lo,
            j <= p.len(),
            forall|k: int| 0 <= k < j ==> cs@[lo + k] == p@[k],
        decreases p.len() - j,
    {
        if cs[lo + j] != p[j] {
            proof {
                assert(cs@.subrange(lo as int, hi as int).subrange(0, p.len() as int)[j as int]
                    != p@[j as int]);
            }
            return false;
        }
        j = j + 1;
    }
    proof {
        assert(cs@.subrange(lo as int, hi as int).subrange(0, p.len() as int) =~= p@);
    }
    true
}

pub fn window_has_suffix(cs: &Vec<char>, lo: usize, hi: usize, p: &Vec<char>) -> (r: bool)
    requires
        lo <= hi <= cs.len(),
    ensures
        r == has_suffix(cs@.subrange(lo as int, hi as int), p@),
{
    if p.len() > hi - lo {
        return false;
    }
    let start = hi - p.len();
    let mut j: usize = 0;
    while j < p.len()
        invariant
            lo <= start <= hi <= cs.len(),
            start + p.len() == hi,
            j <= p.len(),
            forall|k: int| 0 <= k < j ==> cs@[start + k] == p@[k],
        decreases p.len() - j,
    {
        if cs[start + j] != p[j] {
            proof {
                let w = cs@.subrange(lo as int, hi as int);
                assert(w.subrange(w.len() - p.len(), w.len() as int)[j as int] != p@[j as int]);
            }
            return false;
        }
        j = j + 1;
    }
    proof {
        let w = cs@.subrange(lo as int, hi as int);
        assert(w.subrange(w.len() - p.len(), w.len() as int) =~= p@);
    }
    true
}

/// The start of the window once leading whitespace is skipped.
pub fn skip_ws_start(cs: &Vec<char>, lo: usize, hi: usize) -> (r: usize)
    requires
        lo <= hi <= cs.len(),
    ensures
        lo <= r <= hi,
        cs@.subrange(r as int, hi as int) == trim_start_ws(cs@.subrange(lo as int, hi as int)),
{
    let mut i = lo;
    while i < hi && whitespace(cs[i])
        invariant
            lo <= i <= hi <= cs.len(),
            trim_start_ws(cs@.subrange(lo as int, hi as int)) == trim_start_ws(
                cs@.subrange(i as int, hi as int),
            ),
        decreases hi - i,
    {
        proof {
            assert(cs@.subrange(i as int, hi as int).drop_first() =~= cs@.subrange(
                i as int + 1,
                hi as int,
            ));
        }
        i = i + 1;
    }
    i
}

/// The end of the window once trailing whitespace is dropped.
pub fn skip_ws_end(cs: &Vec<char>, lo: usize, hi: usize) -> (r: usize)
    requires
        lo <= hi <= cs.len(),
    ensures
        lo <= r <= hi,
        cs@.subrange(lo as int, r as int) == trim_end_ws(cs@.subrange(lo as int, hi as int)),
{
    let mut i = hi;
    while i > lo && whitespace(cs[i - 1])
        invariant
            lo <= i <= hi <= cs.len(),
            trim_end_ws(cs@.subrange(lo as int, hi as int)) == trim_end_ws(
                cs@.subrange(lo as int, i as int),
            ),
        decreases i - lo,
    {
        proof {
            assert(cs@.subrange(lo as int, i as int).drop_last() =~= cs@.subrange(
                lo as int,
                i as int - 1,
            ));
        }
        i = i - 1;
    }
    i
}

/// The start of the window once leading repetitions of `p` are skipped.
pub fn skip_prefix_start(cs: &Vec<char>, lo: usize, hi: usize, p: &Vec<char>) -> (r: usize)
    requires
        lo <= hi <= cs.len(),
    ensures
        lo <= r <= hi,
        cs@.subrange(r as int, hi as int) == trim_start_matches(
            cs@.subrange(lo as int, hi as int),
            p@,
        ),
{
    let mut i = lo;
    if p.len() == 0 {
        return i;
    }
    while window_has_prefix(cs, i, hi, p)
        invariant
            lo <= i <= hi <= cs.len(),
            p.len() > 0,
            trim_start_matches(cs@.subrange(lo as int, hi as int), p@) == trim_start_matches(
                cs@.subrange(i as int, hi as int),
                p@,
            ),
        decreases hi - i,
    {
        proof {
            let w = cs@.subrange(i as int, hi as int);
            assert(w.subrange(p.len() as int, w.len() as int) =~= cs@.subrange(
                i + p.len(),
                hi as int,
            ));
        }
        i = i + p.len();
    }
    i
}

/// The end of the window once trailing repetitions of `p` are dropped.
pub fn skip_suffix_end(cs: &Vec<char>, lo: usize, hi: usize, p: &Vec<char>) -> (r: usize)
    requires
        lo <= hi <= cs.len(),
    ensures
        lo <= r <= hi,
        cs@.subrange(lo as int, r as int) == trim_end_matches(
            cs@.subrange(lo as int, hi as int),
            p@,
        ),
{
    let mut i = hi;
    if p.len() == 0 {
        return i;
    }
    while window_has_suffix(cs, lo, i, p)
        invariant
            lo <= i <= hi <= cs.len(),
            p.len() > 0,
            trim_end_matches(cs@.subrange(lo as int, hi as int), p@) == trim_end_matches(
                cs@.subrange(lo as int, i as int),
                p@,
            ),
        decreases i - lo,
    {
        proof {
            let w = cs@.subrange(lo as int, i as int);
            assert(w.subrange(0, w.len() - p.len()) =~= cs@.subrange(lo as int, i - p.len()));
        }
        i = i - p.len();
    }
    i
}

/// How many times `c` occurs in the window.
pub fn count_in(cs: &Vec<char>, lo: usize, hi: usize, c: char) -> (r: usize)
    requires
        lo <= hi <= cs.len(),
    ensures
        r as nat == count_char(cs@.subrange(lo as int, hi as int), c),
{
    let mut n: usize = 0;
    let mut i = lo;
    while i < hi
        invariant
            lo <= i <= hi <= cs.len(),
            n as nat == count_char(cs@.subrange(lo as int, i as int), c),
            n <= i - lo,
        decreases hi - i,
    {
        proof {
            assert(cs@.subrange(lo as int, i as int + 1).drop_last() =~= cs@.subrange(
                lo as int,
                i as int,
            ));
        }
        if cs[i] == c {
            n = n + 1;
        }
        i = i + 1;
    }
    n
}

/// The start of what follows the first `c` in the window; `hi` if there is
/// no `c`.
pub fn after_first(cs: &Vec<char>, lo: usize, hi: usize, c: char) -> (r: usize)
    requires
        lo <= hi <= cs.len(),
    ensures
        lo <= r <= hi,
        cs@.subrange(r as int, hi as int) == after_char(cs@.subrange(lo as int, hi as int), c),
{
    let mut i = lo;
    while i < hi
        invariant
            lo <= i <= hi <= cs.len(),
            after_char(cs@.subrange(lo as int, hi as int), c) == after_char(
                cs@.subrange(i as int, hi as int),
                c,
            ),
        decreases hi - i,
    {
        proof {
            assert(cs@.subrange(i as int, hi as int).drop_first() =~= cs@.subrange(
                i as int + 1,
                hi as int,
            ));
        }
        if cs[i] == c {
            return i + 1;
        }
        i = i + 1;
    }
    proof {
        assert(cs@.subrange(i as int, hi as int) =~= Seq::<char>::empty());
    }
    i
}

/// The window of a specifier without its quotes.
pub fn strip_quotes_window(cs: &Vec<char>, lo: usize, hi: usize) -> (r: (usize, usize))
    requires
        lo <= hi <= cs.len(),
    ensures
        lo <= r.0 <= r.1 <= hi,
        cs@.subrange(r.0 as int, r.1 as int) == strip_quotes(cs@.subrange(lo as int, hi as int)),
{
    let dq = vec!['"'];
    let sq = vec!['\''];
    let a = skip_prefix_start(cs, lo, hi, &dq);
    let b = skip_prefix_start(cs, a, hi, &sq);
    let c = skip_suffix_end(cs, b, hi, &dq);
    let d = skip_suffix_end(cs, b, c, &sq);
    proof {
        assert(dq@ =~= seq!['"']);
        assert(sq@ =~= seq!['\'']);
    }
    (b, d)
}

} // verus!
