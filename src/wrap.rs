//! Greedy word wrapping of one text line into fragments of bounded width.
use vstd::prelude::*;

use crate::constructs::BoxError;
use crate::text::{chars_of, lemma_trimmed_edges, string_of, trim_chars, trimmed};

verus! {

/// Rightmost position in `lo..=hi` that holds a space in `u`, or `lo - 1` when none does.
pub open spec fn last_space(u: Seq<char>, lo: int, hi: int) -> int
    decreases hi - lo + 1,
{
    if hi < lo || hi < 0 || hi >= u.len() {
        lo - 1
    } else if u[hi] == ' ' {
        hi
    } else {
        last_space(u, lo, hi - 1)
    }
}

/// End of the fragment that starts at `c`, and where the next one starts.
///
/// The text is read as if one space followed it. The fragment ends at the
/// rightmost space at most `w` places after `c`, and that space is skipped;
/// with no such space the text is cut hard after `w` characters.
pub open spec fn wrap_step(t: Seq<char>, w: int, c: int) -> (int, int) {
    let hi = if c + w < t.len() { c + w } else { t.len() as int };
    let j = last_space(t.push(' '), c, hi);
    if c <= j {
        (j, j + 1)
    } else {
        (c + w, c + w)
    }
}

/// The fragments of `t` from position `c` on, for width `w`.
pub open spec fn wrap_from(t: Seq<char>, w: int, c: int) -> Seq<Seq<char>>
    decreases t.len() + 1 - c,
{
    if w <= 0 || c < 0 || c >= t.len() {
        seq![]
    } else {
        let (e, n) = wrap_step(t, w, c);
        if c < n <= t.len() + 1 && e <= t.len() {
            seq![t.subrange(c, e)] + wrap_from(t, w, n)
        } else {
            seq![]
        }
    }
}

/// Whether the fragment that starts at `c` ended at a space (which the
/// fragments leave out), for each fragment from `c` on.
pub open spec fn wrap_breaks(t: Seq<char>, w: int, c: int) -> Seq<bool>
    decreases t.len() + 1 - c,
{
    if w <= 0 || c < 0 || c >= t.len() {
        seq![]
    } else {
        let (e, n) = wrap_step(t, w, c);
        if c < n <= t.len() + 1 && e <= t.len() {
            seq![e < n] + wrap_breaks(t, w, n)
        } else {
            seq![]
        }
    }
}

/// The fragments of `text` wrapped to `width` columns.
pub open spec fn wrap_text(text: Seq<char>, width: int) -> Seq<Seq<char>> {
    wrap_from(trimmed(text), width, 0)
}

/// Fragments joined back, with one space where `breaks` says a space was left out.
pub open spec fn join_fragments(frags: Seq<Seq<char>>, breaks: Seq<bool>) -> Seq<char>
    decreases frags.len(),
{
    if frags.len() == 0 {
        seq![]
    } else if frags.len() == 1 {
        frags[0]
    } else {
        frags[0] + (if breaks[0] { seq![' '] } else { seq![] }) + join_fragments(
            frags.drop_first(),
            breaks.drop_first(),
        )
    }
}

/// The views of a vector of strings.
pub open spec fn strings_view(v: Seq<String>) -> Seq<Seq<char>> {
    v.map_values(|s: String| s@)
}

proof fn lemma_last_space(u: Seq<char>, lo: int, hi: int)
    requires
        0 <= lo,
        lo - 1 <= hi < u.len(),
    ensures
        lo - 1 <= last_space(u, lo, hi) <= hi,
        last_space(u, lo, hi) >= lo ==> u[last_space(u, lo, hi)] == ' ',
        forall|k: int| last_space(u, lo, hi) < k <= hi && lo <= k ==> u[k] != ' ',
    decreases hi - lo + 1,
{
    if hi >= lo && u[hi] != ' ' {
        lemma_last_space(u, lo, hi - 1);
    }
}

/// One step of the wrapper, for `0 <= c < t.len()` and `w > 0`: it moves on,
/// stays within the text, and cuts a fragment of at most `w` characters.
proof fn lemma_wrap_step(t: Seq<char>, w: int, c: int)
    requires
        w > 0,
        0 <= c < t.len(),
    ensures
        c < wrap_step(t, w, c).1 <= t.len() + 1,
        c <= wrap_step(t, w, c).0 <= t.len(),
        wrap_step(t, w, c).0 - c <= w,
        wrap_step(t, w, c).0 < wrap_step(t, w, c).1 ==> wrap_step(t, w, c).1
            == wrap_step(t, w, c).0 + 1 && t.push(' ')[wrap_step(t, w, c).0] == ' ',
        wrap_step(t, w, c).0 == wrap_step(t, w, c).1 ==> wrap_step(t, w, c).0 == c + w
            && c + w < t.len(),
{
    let u = t.push(' ');
    let hi = if c + w < t.len() { c + w } else { t.len() as int };
    lemma_last_space(u, c, hi);
    if c + w >= t.len() {
        assert(u[t.len() as int] == ' ');
    }
}

/// Every fragment from `c` on fits in the width.
proof fn lemma_wrap_fits(t: Seq<char>, w: int, c: int)
    requires
        c >= 0,
    ensures
        forall|i: int| 0 <= i < wrap_from(t, w, c).len() ==> #[trigger] wrap_from(t, w, c)[i].len() <= w,
    decreases t.len() + 1 - c,
{
    if w > 0 && c < t.len() {
        lemma_wrap_step(t, w, c);
        let (e, n) = wrap_step(t, w, c);
        lemma_wrap_fits(t, w, n);
        let rest = wrap_from(t, w, n);
        assert forall|i: int| 0 <= i < wrap_from(t, w, c).len() implies #[trigger] wrap_from(
            t,
            w,
            c,
        )[i].len() <= w by {
            if i > 0 {
                assert(wrap_from(t, w, c)[i] == rest[i - 1]);
            }
        }
    }
}

/// From `c` on there are no more fragments than characters left.
proof fn lemma_wrap_count(t: Seq<char>, w: int, c: int)
    requires
        0 <= c,
    ensures
        wrap_from(t, w, c).len() == wrap_breaks(t, w, c).len(),
        c <= t.len() ==> wrap_from(t, w, c).len() <= t.len() - c,
        0 < w && c < t.len() ==> wrap_from(t, w, c).len() > 0,
    decreases t.len() + 1 - c,
{
    if w > 0 && c < t.len() {
        lemma_wrap_step(t, w, c);
        let (e, n) = wrap_step(t, w, c);
        lemma_wrap_count(t, w, n);
    }
}

/// Joining the fragments from `c` on gives back the rest of the text.
proof fn lemma_wrap_join(t: Seq<char>, w: int, c: int)
    requires
        w > 0,
        0 <= c <= t.len(),
        t.len() > 0 ==> t.last() != ' ',
    ensures
        join_fragments(wrap_from(t, w, c), wrap_breaks(t, w, c)) == t.subrange(c, t.len() as int),
    decreases t.len() + 1 - c,
{
    if c < t.len() {
        lemma_wrap_step(t, w, c);
        let (e, n) = wrap_step(t, w, c);
        lemma_wrap_join(t, w, if n <= t.len() { n } else { t.len() as int });
        lemma_wrap_count(t, w, n);
        let frags = wrap_from(t, w, c);
        let breaks = wrap_breaks(t, w, c);
        assert(frags.drop_first() == wrap_from(t, w, n));
        assert(breaks.drop_first() == wrap_breaks(t, w, n));
        if n > t.len() {
            assert(wrap_from(t, w, n).len() == 0);
            assert(e == t.len());
        } else if e < n {
            assert(t[e] == ' ');
            assert(n < t.len());
            assert(t.subrange(c, t.len() as int) =~= t.subrange(c, e) + seq![' '] + t.subrange(
                n,
                t.len() as int,
            ));
        } else {
            assert(t.subrange(c, t.len() as int) =~= t.subrange(c, e) + t.subrange(
                n,
                t.len() as int,
            ));
        }
    }
}

/// Wrapping loses and adds nothing: joining the fragments, with one space at
/// each break that left a space out, gives back the trimmed text.
pub proof fn lemma_wrap_round_trip(text: Seq<char>, width: int)
    requires
        width > 0,
    ensures
        join_fragments(wrap_text(text, width), wrap_breaks(trimmed(text), width, 0))
            == trimmed(text),
{
    lemma_trimmed_edges(text);
    let t = trimmed(text);
    if t.len() > 0 {
        assert((' ' as u32) == 0x20);
    }
    lemma_wrap_join(t, width, 0);
    assert(t.subrange(0, t.len() as int) == t);
}

/// No fragment is longer than the width.
pub proof fn lemma_fragments_fit(text: Seq<char>, width: int)
    ensures
        forall|i: int|
            0 <= i < wrap_text(text, width).len() ==> #[trigger] wrap_text(text, width)[i].len()
                <= width,
{
    lemma_wrap_fits(trimmed(text), width, 0);
}

/// Wrapping never gives more fragments than the trimmed text has characters.
pub proof fn lemma_wrap_count_bound(text: Seq<char>, width: int)
    ensures
        wrap_text(text, width).len() <= trimmed(text).len(),
{
    lemma_wrap_count(trimmed(text), width, 0);
}

proof fn lemma_no_space_step(t: Seq<char>, w: int, c: int)
    requires
        w > 0,
        0 <= c <= t.len(),
        forall|i: int| 0 <= i < t.len() ==> t[i] != ' ',
    ensures
        wrap_from(t, w, c).len() == (t.len() - c + w - 1) / w,
    decreases t.len() - c,
{
    let x = t.len() - c;
    if c == t.len() {
        assert((w - 1) / w == 0) by (nonlinear_arith)
            requires
                w > 0,
        ;
    } else {
        lemma_wrap_step(t, w, c);
        let (e, n) = wrap_step(t, w, c);
        if c + w >= t.len() {
            assert(n == t.len() + 1) by {
                if e == n {
                } else {
                    if e < t.len() {
                        assert(t.push(' ')[e] == t[e]);
                    }
                }
            }
            assert(wrap_from(t, w, n).len() == 0);
            assert(wrap_from(t, w, c).len() == 1 + wrap_from(t, w, n).len());
            assert((x + w - 1) / w == 1) by (nonlinear_arith)
                requires
                    0 < x <= w,
            ;
        } else {
            assert(e == n) by {
                if e < n {
                    assert(t.push(' ')[e] == t[e]);
                }
            }
            lemma_no_space_step(t, w, c + w);
            assert(wrap_from(t, w, c).len() == 1 + wrap_from(t, w, n).len());
            assert((x + w - 1) / w == (x - w + w - 1) / w + 1) by (nonlinear_arith)
                requires
                    x > w > 0,
            ;
        }
    }
}

/// Text without spaces is cut hard every `width` characters, into
/// `ceil(L / width)` fragments for a trimmed length `L`.
pub proof fn lemma_wrap_count_no_space(text: Seq<char>, width: int)
    requires
        width > 0,
        forall|i: int| 0 <= i < trimmed(text).len() ==> trimmed(text)[i] != ' ',
    ensures
        wrap_text(text, width).len() == (trimmed(text).len() + width - 1) / width,
{
    lemma_no_space_step(trimmed(text), width, 0);
}

/// Rightmost position in `lo..=hi` of `t` followed by one space that holds a
/// space, if there is one.
pub fn nearest_whitespace(t: &Vec<char>, lo: usize, hi: usize) -> (r: Option<usize>)
    requires
        lo <= hi <= t.len(),
    ensures
        r == (if last_space(t@.push(' '), lo as int, hi as int) >= lo {
            Some(last_space(t@.push(' '), lo as int, hi as int) as usize)
        } else {
            None
        }),
{
    let ghost u = t@.push(' ');
    let mut k: usize = hi;
    loop
        invariant
            lo <= k <= hi <= t.len(),
            u == t@.push(' '),
            last_space(u, lo as int, hi as int) == last_space(u, lo as int, k as int),
        decreases k,
    {
        let is_space = if k == t.len() {
            true
        } else {
            t[k] == ' '
        };
        if is_space {
            return Some(k);
        }
        if k == lo {
            assert(last_space(u, lo as int, k as int - 1) == lo - 1);
            return None;
        }
        k = k - 1;
    }
}

/// Wraps `data`, trimmed, into fragments of at most `content_width` characters.
///
/// Fails with `InvalidWidth` when `content_width` is zero. Text that is empty
/// once trimmed gives no fragment at all.
pub fn text_wrap_vec(data: &str, content_width: usize) -> (r: Result<Vec<String>, BoxError>)
    ensures
        r is Err <==> content_width == 0,
        r is Err ==> r == Err::<Vec<String>, BoxError>(BoxError::InvalidWidth),
        r is Ok ==> strings_view(r->Ok_0@) == wrap_text(data@, content_width as int),
{
    if content_width == 0 {
        return Err(BoxError::InvalidWidth);
    }
    let all = chars_of(data);
    let t = trim_chars(&all);
    let w = content_width;
    let n = t.len();
    let mut out: Vec<String> = Vec::new();
    let mut c: usize = 0;
    while c < n
        invariant
            n == t.len(),
            w > 0,
            c <= n,
            strings_view(out@) + wrap_from(t@, w as int, c as int) == wrap_from(
                t@,
                w as int,
                0,
            ),
        decreases n + 1 - c,
    {
        proof {
            lemma_wrap_step(t@, w as int, c as int);
        }
        let hi = if w < n - c {
            c + w
        } else {
            n
        };
        let found = nearest_whitespace(&t, c, hi);
        let ghost before = out@;
        let ghost c0 = c as int;
        let ghost step = wrap_step(t@, w as int, c0);
        match found {
            Some(j) => {
                out.push(string_of(&t, c, j));
                c = if j < n {
                    j + 1
                } else {
                    n
                };
            },
            None => {
                out.push(string_of(&t, c, c + w));
                c = c + w;
            },
        }
        proof {
            assert(strings_view(out@) == strings_view(before).push(out@.last()@));
            assert(out@.last()@ == t@.subrange(c0, step.0));
            assert(wrap_from(t@, w as int, c0) == seq![t@.subrange(c0, step.0)] + wrap_from(
                t@,
                w as int,
                step.1,
            ));
            assert(wrap_from(t@, w as int, c as int) == wrap_from(t@, w as int, step.1));
            assert(strings_view(out@) + wrap_from(t@, w as int, c as int) =~= strings_view(before)
                + wrap_from(t@, w as int, c0));
        }
    }
    proof {
        assert(strings_view(out@) + wrap_from(t@, w as int, c as int) == strings_view(out@));
    }
    Ok(out)
}

} // verus!
