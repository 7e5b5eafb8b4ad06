use vstd::prelude::*;

verus! {

/// Where the last segment starts when `s` is split at each `::`, scanning from `i`
/// with the current segment starting at `start`.
pub open spec fn segment_start(s: Seq<char>, i: int, start: int) -> int
    decreases s.len() - i,
{
    if i < 0 || i >= s.len() {
        start
    } else if i + 1 < s.len() && s[i] == ':' && s[i + 1] == ':' {
        segment_start(s, i + 2, i + 2)
    } else {
        segment_start(s, i + 1, start)
    }
}

/// The last `::`-separated segment of a path.
pub open spec fn last_segment(s: Seq<char>) -> Seq<char> {
    s.subrange(segment_start(s, 0, 0), s.len() as int)
}

pub proof fn lemma_segment_start(s: Seq<char>, i: int, start: int)
    requires
        0 <= start <= s.len(),
        0 <= i,
    ensures
        0 <= segment_start(s, i, start) <= s.len(),
    decreases s.len() - i,
{
    if i < s.len() {
        if i + 1 < s.len() && s[i] == ':' && s[i + 1] == ':' {
            lemma_segment_start(s, i + 2, i + 2);
        } else {
            lemma_segment_start(s, i + 1, start);
        }
    }
}

/// The last segment of a path such as `a::b::C`.
pub fn last_segment_of(path: &str) -> (r: String)
    ensures
        r@ == last_segment(path@),
{
    let n = path.unicode_len();
    let mut i: usize = 0;
    let mut start: usize = 0;
    while i < n
        invariant
            n == path@.len(),
            start <= n,
            segment_start(path@, 0, 0) == segment_start(path@, i as int, start as int),
        decreases n - i,
    {
        if n - i > 1 && path.get_char(i) == ':' && path.get_char(i + 1) == ':' {
            i = i + 2;
            start = i;
        } else {
            i = i + 1;
        }
    }
    path.substring_char(start, n).to_owned()
}

} // verus!
