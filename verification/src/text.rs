//! Text helpers over the characters of a string.

use vstd::prelude::*;

verus! {

/// The characters of `s`, in order.
pub fn chars_of(s: &str) -> (r: Vec<char>)
    ensures
        r@ == s@,
{
    broadcast use vstd::string::group_string_axioms;

    let mut r: Vec<char> = Vec::new();
    for c in iter: s.chars()
        invariant
            r@ == iter.seq().take(iter.index() as int),
    {
        r.push(c);
    }
    r
}

/// Whether `s` begins with `prefix`.
pub fn starts_with(s: &Vec<char>, prefix: &Vec<char>) -> (r: bool)
    ensures
        r == prefix@.is_prefix_of(s@),
{
    if prefix.len() > s.len() {
        return false;
    }
    let mut i: usize = 0;
    while i < prefix.len()
        invariant
            prefix@.len() <= s@.len(),
            i <= prefix@.len(),
            forall|j: int| 0 <= j < i ==> prefix@[j] == s@[j],
        decreases prefix@.len() - i,
    {
        if prefix[i] != s[i] {
            return false;
        }
        i += 1;
    }
    true
}

/// `t` holds the separator `::` at positions `i` and `i + 1`.
pub open spec fn separator_at(t: Seq<char>, i: int) -> bool {
    0 <= i && i + 1 < t.len() && t[i] == ':' && t[i + 1] == ':'
}

/// Where the last `::`-separated segment of `t[..end]` starts: just past the
/// last separator that ends at or before `end`, or 0 when there is none.
pub open spec fn segment_start(t: Seq<char>, end: int) -> int
    decreases end,
{
    if end < 2 {
        0
    } else if t[end - 2] == ':' && t[end - 1] == ':' {
        end
    } else {
        segment_start(t, end - 1)
    }
}

/// The last `::`-separated segment of `t`: `rust::nwc::client` gives `client`.
pub open spec fn last_segment(t: Seq<char>) -> Seq<char> {
    t.skip(segment_start(t, t.len() as int))
}

/// The segment starts within `t[..end]` and no separator lies inside it.
pub proof fn lemma_segment_start(t: Seq<char>, end: int)
    requires
        0 <= end <= t.len(),
    ensures
        0 <= segment_start(t, end) <= end,
        forall|j: int| segment_start(t, end) <= j && j + 1 < end ==> !#[trigger] separator_at(t, j),
    decreases end,
{
    if end >= 2 && !(t[end - 2] == ':' && t[end - 1] == ':') {
        lemma_segment_start(t, end - 1);
    }
}

/// The last segment of a text never contains the separator, so taking it
/// again changes nothing.
pub proof fn lemma_last_segment_has_no_separator(t: Seq<char>)
    ensures
        forall|j: int| !#[trigger] separator_at(last_segment(t), j),
        last_segment(last_segment(t)) == last_segment(t),
{
    let start = segment_start(t, t.len() as int);
    lemma_segment_start(t, t.len() as int);
    let s = last_segment(t);
    assert forall|j: int| !#[trigger] separator_at(s, j) by {
        if separator_at(s, j) {
            assert(s[j] == t[start + j] && s[j + 1] == t[start + j + 1]);
            assert(separator_at(t, start + j));
        }
    }
    lemma_no_separator_is_whole(s);
}

/// A text without separator is its own last segment.
pub proof fn lemma_no_separator_is_whole(t: Seq<char>)
    requires
        forall|j: int| !#[trigger] separator_at(t, j),
    ensures
        last_segment(t) == t,
{
    lemma_segment_start_without_separator(t, t.len() as int);
    assert(t.skip(0) =~= t);
}

proof fn lemma_segment_start_without_separator(t: Seq<char>, end: int)
    requires
        0 <= end <= t.len(),
        forall|j: int| !#[trigger] separator_at(t, j),
    ensures
        segment_start(t, end) == 0,
    decreases end,
{
    if end >= 2 {
        assert(!separator_at(t, end - 2));
        lemma_segment_start_without_separator(t, end - 1);
    }
}

/// The last `::`-separated segment of `target`, so that a log target
/// `rust::nwc::client` displays as `client`.
pub fn last_segment_of(target: &str) -> (r: String)
    ensures
        r@ == last_segment(target@),
{
    let chars = chars_of(target);
    let mut end: usize = chars.len();
    while end >= 2 && !(chars[end - 2] == ':' && chars[end - 1] == ':')
        invariant
            end <= chars@.len(),
            chars@ == target@,
            segment_start(target@, end as int) == segment_start(target@, target@.len() as int),
        decreases end,
    {
        end -= 1;
    }
    let start: usize = if end < 2 {
        0
    } else {
        end
    };
    String::from_str(target.substring_char(start, chars.len()))
}

} // verus!
