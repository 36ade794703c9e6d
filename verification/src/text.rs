//! Text as sequences of characters: reading a string's characters and
//! replacing every occurrence of a pattern.

use vstd::prelude::*;
use vstd::string::*;

verus! {

/// Whether `pat` stands in `s` at position `i`.
pub open spec fn occurs_at(s: Seq<char>, pat: Seq<char>, i: int) -> bool {
    0 <= i && i + pat.len() <= s.len() && s.subrange(i, i + pat.len()) == pat
}

/// Whether `pat` stands anywhere in `s`.
pub open spec fn occurs_in(s: Seq<char>, pat: Seq<char>) -> bool {
    exists|i: int| occurs_at(s, pat, i)
}

/// `s` with every occurrence of `pat` replaced by `to`.
///
/// Occurrences are found from left to right and do not overlap: after one is
/// replaced the search goes on behind it, and what was put in is not searched
/// again. With an empty pattern nothing is replaced.
pub open spec fn replace_all(s: Seq<char>, pat: Seq<char>, to: Seq<char>) -> Seq<char>
    decreases s.len(),
{
    if pat.len() == 0 || s.len() < pat.len() {
        s
    } else if occurs_at(s, pat, 0) {
        to + replace_all(s.skip(pat.len() as int), pat, to)
    } else {
        seq![s[0]] + replace_all(s.skip(1), pat, to)
    }
}

/// Whether the leftmost occurrence of `pat` in `s` stands at position `i`.
pub open spec fn leftmost_at(s: Seq<char>, pat: Seq<char>, i: int) -> bool {
    occurs_at(s, pat, i) && forall|j: int| 0 <= j < i ==> !occurs_at(s, pat, j)
}

/// An occurrence in `s` behind its first character is an occurrence in the
/// rest of `s`, one position earlier, and the other way round.
pub proof fn lemma_occurrence_shifts(s: Seq<char>, pat: Seq<char>, j: int)
    requires
        s.len() > 0,
        0 <= j,
    ensures
        occurs_at(s.skip(1), pat, j) == occurs_at(s, pat, j + 1),
{
    if j + pat.len() <= s.len() - 1 {
        assert(s.skip(1).subrange(j, j + pat.len()) =~= s.subrange(j + 1, j + 1 + pat.len()));
    }
}

/// Where `pat` stands somewhere in `s`, one occurrence is the leftmost.
pub proof fn lemma_leftmost_exists(s: Seq<char>, pat: Seq<char>, i: int)
    requires
        occurs_at(s, pat, i),
    ensures
        exists|k: int| 0 <= k <= i && leftmost_at(s, pat, k),
    decreases i,
{
    if exists|j: int| 0 <= j < i && occurs_at(s, pat, j) {
        let j = choose|j: int| 0 <= j < i && occurs_at(s, pat, j);
        lemma_leftmost_exists(s, pat, j);
        let k = choose|k: int| 0 <= k <= j && leftmost_at(s, pat, k);
        assert(0 <= k <= i && leftmost_at(s, pat, k));
    } else {
        assert(leftmost_at(s, pat, i));
    }
}

/// Where `pat` stands nowhere in `s`, replacing it changes nothing.
pub proof fn lemma_replace_without_occurrence(s: Seq<char>, pat: Seq<char>, to: Seq<char>)
    requires
        !occurs_in(s, pat),
    ensures
        replace_all(s, pat, to) == s,
    decreases s.len(),
{
    if pat.len() > 0 && s.len() >= pat.len() {
        assert(!occurs_at(s, pat, 0));
        assert forall|j: int| !occurs_at(s.skip(1), pat, j) by {
            if 0 <= j {
                lemma_occurrence_shifts(s, pat, j);
                assert(!occurs_at(s, pat, j + 1));
            }
        }
        lemma_replace_without_occurrence(s.skip(1), pat, to);
        assert(seq![s[0]] + s.skip(1) =~= s);
    }
}

/// Where the leftmost occurrence of `pat` in `s` stands at `i`, the text
/// before it is kept, `to` stands in its place, and what follows it is the
/// replacement of the rest.
pub proof fn lemma_replace_at_leftmost(s: Seq<char>, pat: Seq<char>, to: Seq<char>, i: int)
    requires
        pat.len() > 0,
        leftmost_at(s, pat, i),
    ensures
        replace_all(s, pat, to) == s.take(i) + to + replace_all(
            s.skip(i + pat.len()),
            pat,
            to,
        ),
        occurs_at(replace_all(s, pat, to), to, i),
    decreases i,
{
    let tail = replace_all(s.skip(i + pat.len()), pat, to);
    if i == 0 {
        assert(s.take(0) + to + tail =~= to + tail);
    } else {
        assert(!occurs_at(s, pat, 0));
        let rest = s.skip(1);
        lemma_occurrence_shifts(s, pat, i - 1);
        assert forall|j: int| 0 <= j < i - 1 implies !occurs_at(rest, pat, j) by {
            lemma_occurrence_shifts(s, pat, j);
        }
        lemma_replace_at_leftmost(rest, pat, to, i - 1);
        assert(rest.skip(i - 1 + pat.len()) =~= s.skip(i + pat.len()));
        assert(seq![s[0]] + (rest.take(i - 1) + to + tail) =~= s.take(i) + to + tail);
    }
    let whole = s.take(i) + to + tail;
    assert(whole.subrange(i, i + to.len()) =~= to);
}

/// The characters of `s`, in order.
pub fn chars_of(s: &str) -> (v: Vec<char>)
    ensures
        v@ == s@,
{
    let mut v: Vec<char> = Vec::new();
    for c in it: s.chars()
        invariant
            v@ == it.seq().take(it.index() as int),
            it.seq() == s@,
    {
        v.push(c);
    }
    v
}

/// Whether `pat` stands in `text` at position `at`.
pub fn matches_at(text: &Vec<char>, pat: &Vec<char>, at: usize) -> (found: bool)
    ensures
        found == occurs_at(text@, pat@, at as int),
{
    let m: usize = pat.len();
    if m > text.len() || at > text.len() - m {
        return false;
    }
    let mut k: usize = 0;
    while k < m
        invariant
            m == pat.len(),
            at + m <= text.len(),
            k <= m,
            forall|j: int| 0 <= j < k ==> text@[at + j] == pat@[j],
        decreases m - k,
    {
        if text[at + k] != pat[k] {
            proof {
                let window = text@.subrange(at as int, at + m);
                assert(window[k as int] == text@[at + k]);
            }
            return false;
        }
        k += 1;
    }
    assert(text@.subrange(at as int, at + m) =~= pat@);
    true
}

/// One step of a replacement where the pattern does not stand at `i`: the
/// character at `i` is kept.
proof fn lemma_replace_keeps(s: Seq<char>, pat: Seq<char>, to: Seq<char>, i: int)
    requires
        pat.len() > 0,
        0 <= i,
        i + pat.len() <= s.len(),
        !occurs_at(s, pat, i),
    ensures
        replace_all(s.skip(i), pat, to) == seq![s[i]] + replace_all(s.skip(i + 1), pat, to),
{
    let rest = s.skip(i);
    assert(rest.subrange(0, pat.len() as int) =~= s.subrange(i, i + pat.len()));
    assert(rest.skip(1) =~= s.skip(i + 1));
}

/// One step of a replacement where the pattern stands at `i`: it gives way to
/// `to`, and the search goes on behind it.
proof fn lemma_replace_swaps(s: Seq<char>, pat: Seq<char>, to: Seq<char>, i: int)
    requires
        pat.len() > 0,
        occurs_at(s, pat, i),
    ensures
        replace_all(s.skip(i), pat, to) == to + replace_all(s.skip(i + pat.len()), pat, to),
{
    let rest = s.skip(i);
    assert(rest.subrange(0, pat.len() as int) =~= s.subrange(i, i + pat.len()));
    assert(rest.skip(pat.len() as int) =~= s.skip(i + pat.len()));
}

/// `s` with every occurrence of `pat` replaced by `to`, occurrences taken from
/// left to right without overlap. With an empty `pat` the result is `s`.
pub fn replace(s: &str, pat: &str, to: &str) -> (r: String)
    ensures
        r@ == replace_all(s@, pat@, to@),
{
    let text = chars_of(s);
    let needle = chars_of(pat);
    let n: usize = text.len();
    let m: usize = needle.len();
    if m == 0 || n < m {
        return s.to_owned();
    }
    let mut out = String::new();
    let mut kept: usize = 0;
    let mut i: usize = 0;
    assert(s@.skip(0) =~= s@);
    assert(s@.subrange(0, 0) =~= Seq::<char>::empty());
    while i <= n - m
        invariant
            text@ == s@,
            needle@ == pat@,
            n == s@.len(),
            m == pat@.len(),
            0 < m <= n,
            kept <= i <= n,
            replace_all(s@, pat@, to@) == out@ + s@.subrange(kept as int, i as int) + replace_all(
                s@.skip(i as int),
                pat@,
                to@,
            ),
        decreases n - i,
    {
        if matches_at(&text, &needle, i) {
            proof {
                lemma_replace_swaps(s@, pat@, to@, i as int);
                assert(s@.subrange(i + m, i + m) =~= Seq::<char>::empty());
            }
            out.append(s.substring_char(kept, i));
            out.append(to);
            i += m;
            kept = i;
        } else {
            proof {
                lemma_replace_keeps(s@, pat@, to@, i as int);
                assert(s@.subrange(kept as int, i as int) + seq![s@[i as int]] =~= s@.subrange(
                    kept as int,
                    i + 1,
                ));
            }
            i += 1;
        }
    }
    proof {
        assert(s@.subrange(kept as int, i as int) + s@.skip(i as int) =~= s@.subrange(
            kept as int,
            n as int,
        ));
    }
    out.append(s.substring_char(kept, n));
    out
}

} // verus!
