//! Finding a YouTube video id in free text.
//!
//! Five link shapes are tried in a fixed order; the first shape found
//! anywhere in the text wins, at its leftmost position, and the id that
//! follows it is put into the canonical watch link.
use vstd::prelude::*;
use vstd::string::*;
use crate::text::{chars_of, occurs_at};

verus! {

/// The canonical watch link, to which a video id is appended; also the first
/// head of the first shape.
pub const WATCH_URL: &'static str = "https://www.youtube.com/watch?v=";

pub const FULL_WATCH: &'static str = "https://youtube.com/watch?v=";

pub const FULL_SHORT: &'static str = "https://youtu.be/";

pub const HOST_WATCH_WWW: &'static str = "www.youtube.com/watch?v=";

pub const HOST_WATCH: &'static str = "youtube.com/watch?v=";

pub const HOST_SHORT: &'static str = "youtu.be/";

pub const WATCH_PART: &'static str = "watch?v=";

/// How many link shapes there are.
pub const SHAPE_COUNT: usize = 5;

/// A character that may stand in a video id: `[a-zA-Z0-9_-]`.
pub open spec fn is_id_char(c: char) -> bool {
    let u = c as u32;
    (0x61 <= u <= 0x7a) || (0x41 <= u <= 0x5a) || (0x30 <= u <= 0x39) || u == 0x5f || u == 0x2d
}

/// The heads that link shape `k` accepts before the id, in the order they
/// are tried: full links, short links, both without scheme, then a bare
/// `watch?v=`.
pub open spec fn heads(k: int) -> Seq<Seq<char>> {
    if k == 0 {
        seq![WATCH_URL@, FULL_WATCH@]
    } else if k == 1 {
        seq![FULL_SHORT@]
    } else if k == 2 {
        seq![HOST_WATCH_WWW@, HOST_WATCH@]
    } else if k == 3 {
        seq![HOST_SHORT@]
    } else if k == 4 {
        seq![WATCH_PART@]
    } else {
        Seq::empty()
    }
}

/// `head` stands in `t` at `p`, and an id character follows it.
pub open spec fn head_hit(t: Seq<char>, p: int, head: Seq<char>) -> bool {
    &&& 0 <= p
    &&& p + head.len() < t.len()
    &&& t.subrange(p, p + head.len()) == head
    &&& is_id_char(t[p + head.len()])
}

/// Link shape `k` matches `t` at `p`.
pub open spec fn hit(t: Seq<char>, k: int, p: int) -> bool {
    &&& 0 <= k < SHAPE_COUNT
    &&& (head_hit(t, p, heads(k)[0]) || (heads(k).len() == 2 && head_hit(t, p, heads(k)[1])))
}

/// Where the id starts for a match of shape `k` at `p`: after the first head
/// that matches there.
pub open spec fn id_start(t: Seq<char>, k: int, p: int) -> int {
    if head_hit(t, p, heads(k)[0]) {
        p + heads(k)[0].len()
    } else {
        p + heads(k)[1].len()
    }
}

/// The end of the run of id characters that starts at `i`.
pub open spec fn id_end(t: Seq<char>, i: int) -> int
    decreases t.len() - i,
{
    if 0 <= i < t.len() && is_id_char(t[i]) {
        id_end(t, i + 1)
    } else {
        i
    }
}

/// The match that counts: shape `k` at `p`, where no earlier shape matches
/// anywhere and shape `k` matches nowhere before `p`.
pub open spec fn first_hit(t: Seq<char>, k: int, p: int) -> bool {
    &&& hit(t, k, p)
    &&& forall|k2: int, q: int| 0 <= k2 < k ==> !#[trigger] hit(t, k2, q)
    &&& forall|q: int| q < p ==> !#[trigger] hit(t, k, q)
}

/// The id of a match of shape `k` at `p`: the whole run of id characters
/// after its head.
pub open spec fn id_at(t: Seq<char>, k: int, p: int) -> Seq<char> {
    t.subrange(id_start(t, k, p), id_end(t, id_start(t, k, p)))
}

/// Some shape matches somewhere in `t`.
pub open spec fn has_link(t: Seq<char>) -> bool {
    exists|k: int, p: int| hit(t, k, p)
}

/// The video id that `t` holds, if any.
pub open spec fn video_id(t: Seq<char>) -> Option<Seq<char>> {
    if exists|k: int, p: int| first_hit(t, k, p) {
        let (k, p) = choose|k: int, p: int| first_hit(t, k, p);
        Some(id_at(t, k, p))
    } else {
        None
    }
}

/// The canonical watch link of `id`.
pub open spec fn canonical(id: Seq<char>) -> Seq<char> {
    WATCH_URL@ + id
}

/// The canonical link that `t` holds, if any.
pub open spec fn extracted(t: Seq<char>) -> Option<Seq<char>> {
    match video_id(t) {
        Some(id) => Some(canonical(id)),
        None => None,
    }
}

pub proof fn lemma_id_end(t: Seq<char>, i: int)
    requires
        0 <= i <= t.len(),
    ensures
        i <= id_end(t, i) <= t.len(),
        forall|k: int| i <= k < id_end(t, i) ==> is_id_char(#[trigger] t[k]),
        id_end(t, i) < t.len() ==> !is_id_char(t[id_end(t, i)]),
    decreases t.len() - i,
{
    if i < t.len() && is_id_char(t[i]) {
        lemma_id_end(t, i + 1);
    }
}

/// At most one match counts.
pub proof fn lemma_first_hit_unique(t: Seq<char>, k: int, p: int, k2: int, p2: int)
    requires
        first_hit(t, k, p),
        first_hit(t, k2, p2),
    ensures
        k == k2,
        p == p2,
{
    if k < k2 {
        assert(!hit(t, k, p));
    } else if k2 < k {
        assert(!hit(t, k2, p2));
    } else if p < p2 {
        assert(!hit(t, k, p));
    } else if p2 < p {
        assert(!hit(t, k, p2));
    }
}

/// Where shape `k` matches first at `p`, that match gives the id.
pub proof fn lemma_video_id_of_first_hit(t: Seq<char>, k: int, p: int)
    requires
        first_hit(t, k, p),
    ensures
        video_id(t) == Some(id_at(t, k, p)),
{
    let (k2, p2) = choose|k2: int, p2: int| first_hit(t, k2, p2);
    lemma_first_hit_unique(t, k, p, k2, p2);
}

proof fn lemma_leftmost_in_shape(t: Seq<char>, k: int, p: int)
    requires
        hit(t, k, p),
    ensures
        exists|p2: int| p2 <= p && #[trigger] hit(t, k, p2) && forall|q: int| q < p2 ==> !#[trigger] hit(t, k, q),
    decreases p,
{
    if exists|q: int| q < p && #[trigger] hit(t, k, q) {
        let q = choose|q: int| q < p && #[trigger] hit(t, k, q);
        lemma_leftmost_in_shape(t, k, q);
    } else {
        assert(forall|q: int| q < p ==> !#[trigger] hit(t, k, q));
    }
}

proof fn lemma_first_shape(t: Seq<char>, k: int, p: int)
    requires
        hit(t, k, p),
    ensures
        exists|k2: int, p2: int| k2 <= k && #[trigger] first_hit(t, k2, p2),
    decreases k,
{
    if exists|k2: int, q: int| 0 <= k2 < k && #[trigger] hit(t, k2, q) {
        let (k2, q) = choose|k2: int, q: int| 0 <= k2 < k && #[trigger] hit(t, k2, q);
        lemma_first_shape(t, k2, q);
    } else {
        lemma_leftmost_in_shape(t, k, p);
        let p2 = choose|p2: int| p2 <= p && #[trigger] hit(t, k, p2) && forall|q: int| q < p2 ==> !#[trigger] hit(t, k, q);
        assert(first_hit(t, k, p2));
    }
}

/// Text in which some link shape matches yields the canonical link of the
/// id that follows the head of the first shape matching anywhere, at that
/// shape's leftmost match; that shape comes no later than any shape that
/// matches.
pub proof fn law_link_is_found(t: Seq<char>, k: int, p: int)
    requires
        hit(t, k, p),
    ensures
        exists|k2: int, p2: int|
            k2 <= k && #[trigger] first_hit(t, k2, p2) && extracted(t) == Some(
                canonical(id_at(t, k2, p2)),
            ),
{
    lemma_first_shape(t, k, p);
    let (k2, p2) = choose|k2: int, p2: int| k2 <= k && #[trigger] first_hit(t, k2, p2);
    lemma_video_id_of_first_hit(t, k2, p2);
}

/// The id found is never empty and is made of id characters only.
pub proof fn law_id_shape(t: Seq<char>)
    requires
        video_id(t) is Some,
    ensures
        video_id(t)->0.len() > 0,
        forall|i: int| 0 <= i < video_id(t)->0.len() ==> is_id_char(#[trigger] video_id(t)->0[i]),
{
    let (k, p) = choose|k: int, p: int| first_hit(t, k, p);
    let s = id_start(t, k, p);
    lemma_id_end(t, s);
    assert(id_end(t, s) == id_end(t, s + 1));
    lemma_id_end(t, s + 1);
    let id = video_id(t)->0;
    assert forall|i: int| 0 <= i < id.len() implies is_id_char(#[trigger] id[i]) by {
        assert(id[i] == t[s + i]);
    }
}

/// Text in which no link shape matches yields nothing.
pub proof fn law_no_link_no_url(t: Seq<char>)
    requires
        !has_link(t),
    ensures
        extracted(t) is None,
{
    if exists|k: int, p: int| first_hit(t, k, p) {
        let (k, p) = choose|k: int, p: int| first_hit(t, k, p);
        assert(hit(t, k, p));
    }
}

/// The canonical link of an id is itself a link to that id.
pub proof fn law_canonical_is_found(id: Seq<char>)
    requires
        id.len() > 0,
        forall|i: int| 0 <= i < id.len() ==> is_id_char(#[trigger] id[i]),
    ensures
        extracted(canonical(id)) == Some(canonical(id)),
{
    let c = canonical(id);
    let n = WATCH_URL@.len();
    assert(c.subrange(0, n as int) =~= WATCH_URL@);
    assert(c[n as int] == id[0]);
    assert(head_hit(c, 0, heads(0)[0]));
    assert(first_hit(c, 0, 0));
    assert forall|i: int| n <= i <= c.len() implies id_end(c, i) == c.len() by {
        lemma_id_end_to_end(c, n as int, i);
    }
    assert(c.subrange(n as int, c.len() as int) =~= id);
    lemma_video_id_of_first_hit(c, 0, 0);
}

proof fn lemma_id_end_to_end(t: Seq<char>, from: int, i: int)
    requires
        0 <= from <= i <= t.len(),
        forall|m: int| from <= m < t.len() ==> is_id_char(#[trigger] t[m]),
    ensures
        id_end(t, i) == t.len(),
    decreases t.len() - i,
{
    if i < t.len() {
        lemma_id_end_to_end(t, from, i + 1);
    }
}

/// The heads of shape `k`, as characters.
fn shape_heads(k: usize) -> (r: Vec<Vec<char>>)
    requires
        k < SHAPE_COUNT,
    ensures
        r.len() == heads(k as int).len(),
        forall|j: int| 0 <= j < r.len() ==> (#[trigger] r[j])@ == heads(k as int)[j],
{
    if k == 0 {
        vec![chars_of(WATCH_URL), chars_of(FULL_WATCH)]
    } else if k == 1 {
        vec![chars_of(FULL_SHORT)]
    } else if k == 2 {
        vec![chars_of(HOST_WATCH_WWW), chars_of(HOST_WATCH)]
    } else if k == 3 {
        vec![chars_of(HOST_SHORT)]
    } else {
        vec![chars_of(WATCH_PART)]
    }
}

/// Whether `c` may stand in a video id.
pub fn char_is_id(c: char) -> (r: bool)
    ensures
        r == is_id_char(c),
{
    let u = c as u32;
    (0x61 <= u && u <= 0x7a) || (0x41 <= u && u <= 0x5a) || (0x30 <= u && u <= 0x39) || u == 0x5f
        || u == 0x2d
}

/// Whether `head` stands in `t` at `p` with an id character after it.
fn head_matches(t: &Vec<char>, p: usize, head: &Vec<char>) -> (r: bool)
    ensures
        r == head_hit(t@, p as int, head@),
{
    if occurs_at(t, p, head) {
        assert(p + head.len() <= t.len());
        p + head.len() < t.len() && char_is_id(t[p + head.len()])
    } else {
        false
    }
}

/// The end of the run of id characters in `t` from `i`.
fn run_of_id_chars(t: &Vec<char>, i: usize) -> (r: usize)
    requires
        i <= t.len(),
    ensures
        r == id_end(t@, i as int),
{
    let mut j = i;
    while j < t.len() && char_is_id(t[j])
        invariant
            i <= j <= t.len(),
            id_end(t@, j as int) == id_end(t@, i as int),
        decreases t.len() - j,
    {
        j = j + 1;
    }
    j
}

/// The canonical watch link for the video id that `text` holds, if it holds
/// one (see `video_id`).
pub fn extract_link(text: &str) -> (r: Option<String>)
    ensures
        match r {
            Some(u) => extracted(text@) == Some(u@),
            None => extracted(text@) is None,
        },
{
    let t = chars_of(text);
    let mut k: usize = 0;
    while k < SHAPE_COUNT
        invariant
            t@ == text@,
            0 <= k <= SHAPE_COUNT,
            forall|k2: int, q: int| 0 <= k2 < k ==> !#[trigger] hit(t@, k2, q),
        decreases SHAPE_COUNT - k,
    {
        let hs = shape_heads(k);
        let mut p: usize = 0;
        while p < t.len()
            invariant
                t@ == text@,
                0 <= k < SHAPE_COUNT,
                0 <= p <= t.len(),
                hs.len() == heads(k as int).len(),
                forall|j: int| 0 <= j < hs.len() ==> (#[trigger] hs[j])@ == heads(k as int)[j],
                forall|k2: int, q: int| 0 <= k2 < k ==> !#[trigger] hit(t@, k2, q),
                forall|q: int| q < p ==> !#[trigger] hit(t@, k as int, q),
            decreases t.len() - p,
        {
            let mut j: usize = 0;
            while j < hs.len()
                invariant
                    t@ == text@,
                    0 <= p < t.len(),
                    0 <= k < SHAPE_COUNT,
                    forall|k2: int, q: int| 0 <= k2 < k ==> !#[trigger] hit(t@, k2, q),
                    forall|q: int| q < p ==> !#[trigger] hit(t@, k as int, q),
                    0 <= j <= hs.len(),
                    hs.len() == heads(k as int).len(),
                    forall|j2: int| 0 <= j2 < hs.len() ==> (#[trigger] hs[j2])@ == heads(
                        k as int,
                    )[j2],
                    forall|j2: int|
                        0 <= j2 < j ==> !head_hit(t@, p as int, #[trigger] heads(k as int)[j2]),
                decreases hs.len() - j,
            {
                if head_matches(&t, p, &hs[j]) {
                    let start = p + hs[j].len();
                    let end = run_of_id_chars(&t, start);
                    proof {
                        lemma_id_end(t@, start as int);
                        assert(hit(t@, k as int, p as int));
                        assert(id_start(t@, k as int, p as int) == start);
                        assert(first_hit(t@, k as int, p as int));
                        lemma_video_id_of_first_hit(t@, k as int, p as int);
                    }
                    let mut url = String::from_str(WATCH_URL);
                    url.append(text.substring_char(start, end));
                    return Some(url);
                }
                j = j + 1;
            }
            assert(!hit(t@, k as int, p as int));
            p = p + 1;
        }
        assert forall|q: int| !hit(t@, k as int, q) by {
            if q >= t.len() {
                assert(!head_hit(t@, q, heads(k as int)[0]));
            }
        }
        k = k + 1;
    }
    assert(!exists|k2: int, p2: int| first_hit(t@, k2, p2));
    None
}

} // verus!
