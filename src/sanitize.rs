//! Turning pasted text into something the input field can hold: a canonical
//! watch link where the text holds one, cleaned and bounded text otherwise.
use vstd::prelude::*;
use vstd::string::*;
use crate::link::{
    extract_link, extracted, has_link, law_canonical_is_found, law_id_shape, law_no_link_no_url,
    video_id, WATCH_URL,
};
use crate::text::{
    clean_text, cleaned, glue, is_control, is_kept, is_space, kept, lemma_word_end, word_end,
    words_from,
};

verus! {

/// Longest text, in characters, that typing or cleaning leaves in the input.
pub const MAX_INPUT_LENGTH: usize = 500;

/// Longest pasted text, in characters, that is looked at.
pub const MAX_PASTE_LENGTH: usize = 10000;

/// `s` cut to its first `n` characters, if longer.
pub open spec fn cut(s: Seq<char>, n: nat) -> Seq<char> {
    if s.len() > n {
        s.take(n as int)
    } else {
        s
    }
}

/// The part of pasted text that is looked at.
pub open spec fn truncated(raw: Seq<char>) -> Seq<char> {
    cut(raw, MAX_PASTE_LENGTH as nat)
}

/// What sanitizing makes of `raw`.
pub open spec fn sanitized(raw: Seq<char>) -> Seq<char> {
    match extracted(truncated(raw)) {
        Some(url) => url,
        None => cut(cleaned(truncated(raw)), MAX_INPUT_LENGTH as nat),
    }
}

/// Text in the shape that cleaning leaves: only kept characters, whitespace
/// only as single spaces, none at the start.
pub open spec fn tidy(s: Seq<char>) -> bool {
    &&& forall|i: int| 0 <= i < s.len() ==> is_kept(#[trigger] s[i])
    &&& forall|i: int| 0 <= i < s.len() && is_space(#[trigger] s[i]) ==> s[i] == ' '
    &&& forall|i: int| 0 <= i < s.len() - 1 && #[trigger] s[i] == ' ' ==> s[i + 1] != ' '
    &&& s.len() > 0 ==> s[0] != ' '
}

/// `tidy`, and no space at the end either.
pub open spec fn tidy_ends(s: Seq<char>) -> bool {
    tidy(s) && (s.len() > 0 ==> s.last() != ' ')
}

proof fn lemma_kept_chars(s: Seq<char>)
    ensures
        forall|i: int| 0 <= i < kept(s).len() ==> is_kept(#[trigger] kept(s)[i]),
    decreases s.len(),
{
    if s.len() > 0 {
        lemma_kept_chars(s.drop_last());
        let k = kept(s);
        let k0 = kept(s.drop_last());
        assert forall|i: int| 0 <= i < k.len() implies is_kept(#[trigger] k[i]) by {
            if i < k0.len() {
                assert(k[i] == k0[i]);
            }
        }
    }
}

proof fn lemma_glue_tidy(a: Seq<char>, b: Seq<char>)
    requires
        a.len() > 0,
        forall|i: int| 0 <= i < a.len() ==> is_kept(#[trigger] a[i]) && !is_space(a[i]),
        tidy_ends(b),
    ensures
        tidy_ends(glue(a, b)),
{
    if b.len() > 0 {
        let g = a + seq![' '] + b;
        assert forall|i: int| 0 <= i < g.len() implies is_kept(#[trigger] g[i]) by {
            if i > a.len() {
                assert(g[i] == b[i - a.len() - 1]);
            }
        }
        assert forall|i: int| 0 <= i < g.len() && is_space(#[trigger] g[i]) implies g[i] == ' ' by {
            if i > a.len() {
                assert(g[i] == b[i - a.len() - 1]);
            }
        }
        assert forall|i: int| 0 <= i < g.len() - 1 && #[trigger] g[i] == ' ' implies g[i + 1] != ' ' by {
            if i > a.len() {
                assert(g[i] == b[i - a.len() - 1]);
                assert(g[i + 1] == b[i - a.len()]);
            } else if i == a.len() {
                assert(g[i + 1] == b[0]);
            } else {
                assert(g[i] == a[i]);
            }
        }
        assert(g.last() == b.last());
    }
}

proof fn lemma_words_tidy(s: Seq<char>, i: int)
    requires
        forall|m: int| 0 <= m < s.len() ==> is_kept(#[trigger] s[m]),
    ensures
        tidy_ends(words_from(s, i)),
    decreases s.len() - i,
{
    if 0 <= i < s.len() {
        if is_space(s[i]) {
            lemma_words_tidy(s, i + 1);
        } else {
            lemma_word_end(s, i + 1);
            let e = word_end(s, i);
            lemma_words_tidy(s, e);
            let w = s.subrange(i, e);
            assert forall|m: int| 0 <= m < w.len() implies is_kept(#[trigger] w[m]) && !is_space(
                w[m],
            ) by {
                assert(w[m] == s[i + m]);
            }
            lemma_glue_tidy(w, words_from(s, e));
        }
    }
}

/// Cleaned text is tidy at both ends.
pub proof fn lemma_cleaned_tidy(s: Seq<char>)
    ensures
        tidy_ends(cleaned(s)),
{
    lemma_kept_chars(s);
    lemma_words_tidy(kept(s), 0);
}

proof fn lemma_kept_of_tidy(s: Seq<char>)
    requires
        forall|i: int| 0 <= i < s.len() ==> is_kept(#[trigger] s[i]),
    ensures
        kept(s) == s,
    decreases s.len(),
{
    if s.len() > 0 {
        lemma_kept_of_tidy(s.drop_last());
        assert(s.drop_last().push(s.last()) =~= s);
    }
}

proof fn lemma_words_of_tidy(s: Seq<char>, i: int)
    requires
        tidy_ends(s),
        0 <= i <= s.len(),
        i < s.len() ==> s[i] != ' ',
    ensures
        words_from(s, i) == s.subrange(i, s.len() as int),
    decreases s.len() - i,
{
    if i < s.len() {
        assert(!is_space(s[i]));
        lemma_word_end(s, i + 1);
        let e = word_end(s, i);
        if e == s.len() {
            assert(words_from(s, e) =~= Seq::<char>::empty());
        } else {
            assert(s[e] == ' ');
            assert(e + 1 < s.len());
            assert(words_from(s, e) == words_from(s, e + 1));
            lemma_words_of_tidy(s, e + 1);
            assert(s.subrange(i, e) + seq![' '] + s.subrange(e + 1, s.len() as int) =~= s.subrange(
                i,
                s.len() as int,
            ));
        }
    } else {
        assert(s.subrange(i, s.len() as int) =~= Seq::<char>::empty());
    }
}

/// Cleaning changes nothing in text that is tidy at both ends.
pub proof fn lemma_cleaned_of_tidy(s: Seq<char>)
    requires
        tidy_ends(s),
    ensures
        cleaned(s) == s,
{
    lemma_kept_of_tidy(s);
    lemma_words_of_tidy(s, 0);
    assert(s.subrange(0, s.len() as int) =~= s);
}

/// A prefix of tidy text is tidy.
proof fn lemma_tidy_prefix(s: Seq<char>, n: int)
    requires
        tidy(s),
        0 <= n <= s.len(),
    ensures
        tidy(s.take(n)),
{
    let t = s.take(n);
    assert forall|i: int| 0 <= i < t.len() - 1 && #[trigger] t[i] == ' ' implies t[i + 1] != ' ' by {
        assert(s[i] == ' ');
    }
    assert forall|i: int| 0 <= i < t.len() implies is_kept(#[trigger] t[i]) by {
        assert(t[i] == s[i]);
    }
}

/// Text in which no link shape matches sanitizes to the cleaned form of its
/// first `MAX_PASTE_LENGTH` characters, cut to `MAX_INPUT_LENGTH`: no ASCII
/// control character, whitespace only as single spaces, none at the start.
pub proof fn law_plain_text_is_cleaned(raw: Seq<char>)
    requires
        !has_link(truncated(raw)),
    ensures
        extracted(truncated(raw)) is None,
        sanitized(raw) == cut(cleaned(truncated(raw)), MAX_INPUT_LENGTH as nat),
        sanitized(raw).len() <= MAX_INPUT_LENGTH,
        tidy(sanitized(raw)),
        forall|i: int|
            0 <= i < sanitized(raw).len() ==> !(is_control(#[trigger] sanitized(raw)[i])
                && sanitized(raw)[i] as u32 <= 127),
{
    law_no_link_no_url(truncated(raw));
    let c = cleaned(truncated(raw));
    lemma_cleaned_tidy(truncated(raw));
    if c.len() > MAX_INPUT_LENGTH {
        lemma_tidy_prefix(c, MAX_INPUT_LENGTH as int);
    }
    let s = sanitized(raw);
    assert forall|i: int| 0 <= i < s.len() implies !(is_control(#[trigger] s[i]) && s[i] as u32
        <= 127) by {
        assert(is_kept(s[i]));
        if is_space(s[i]) {
            assert(s[i] == ' ');
        }
    }
}

/// Sanitizing its own result changes nothing, except where that result is a
/// link whose id is too long to survive the cut to `MAX_PASTE_LENGTH`, or is
/// cleaned text that ends in a space after the cut to `MAX_INPUT_LENGTH`,
/// or holds a link that the text before cleaning did not.
pub proof fn law_sanitize_idempotent(raw: Seq<char>)
    requires
        match video_id(truncated(raw)) {
            Some(id) => WATCH_URL@.len() + id.len() <= MAX_PASTE_LENGTH,
            None => extracted(sanitized(raw)) == Some(sanitized(raw)) || (extracted(
                sanitized(raw),
            ) is None && !(sanitized(raw).len() > 0 && sanitized(raw).last() == ' ')),
        },
    ensures
        sanitized(sanitized(raw)) == sanitized(raw),
{
    let s = sanitized(raw);
    match video_id(truncated(raw)) {
        Some(id) => {
            law_id_shape(truncated(raw));
            law_canonical_is_found(id);
            assert(truncated(s) == s);
        },
        None => {
            assert(truncated(s) == s);
            if extracted(s) is None {
                let c = cleaned(truncated(raw));
                lemma_cleaned_tidy(truncated(raw));
                if c.len() > MAX_INPUT_LENGTH {
                    lemma_tidy_prefix(c, MAX_INPUT_LENGTH as int);
                }
                lemma_cleaned_of_tidy(s);
            }
        },
    }
}

/// What is left of pasted text once sanitized: the canonical watch link where
/// its first `MAX_PASTE_LENGTH` characters hold a link, and otherwise those
/// characters cleaned and cut to `MAX_INPUT_LENGTH`.
pub fn sanitize(raw: &str) -> (r: String)
    ensures
        r@ == sanitized(raw@),
{
    let n = raw.unicode_len();
    let looked_at: &str = if n > MAX_PASTE_LENGTH {
        raw.substring_char(0, MAX_PASTE_LENGTH)
    } else {
        raw
    };
    assert(looked_at@ == truncated(raw@));
    match extract_link(looked_at) {
        Some(url) => url,
        None => {
            let c = clean_text(looked_at);
            let m = c.as_str().unicode_len();
            if m > MAX_INPUT_LENGTH {
                String::from_str(c.as_str().substring_char(0, MAX_INPUT_LENGTH))
            } else {
                c
            }
        },
    }
}

} // verus!
