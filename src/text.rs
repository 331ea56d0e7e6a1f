//! Character classes and the text cleaning applied to pasted input.
use vstd::prelude::*;
use vstd::std_specs::iter::IteratorSpec;
use vstd::string::*;

verus! {

/// Unicode `White_Space`, as `char::is_whitespace` defines it.
pub open spec fn is_space(c: char) -> bool {
    let u = c as u32;
    (0x09 <= u <= 0x0d) || u == 0x20 || u == 0x85 || u == 0xa0 || u == 0x1680 || (0x2000 <= u
        <= 0x200a) || u == 0x2028 || u == 0x2029 || u == 0x202f || u == 0x205f || u == 0x3000
}

/// Unicode general category `Cc`, as `char::is_control` defines it.
pub open spec fn is_control(c: char) -> bool {
    let u = c as u32;
    u <= 0x1f || (0x7f <= u <= 0x9f)
}

/// Printable ASCII other than the space.
pub open spec fn is_ascii_graphic(c: char) -> bool {
    0x21 <= c as u32 <= 0x7e
}

/// ASCII whitespace, as `char::is_ascii_whitespace` defines it (no vertical tab).
pub open spec fn is_ascii_space(c: char) -> bool {
    let u = c as u32;
    u == 0x20 || u == 0x09 || u == 0x0a || u == 0x0c || u == 0x0d
}

/// A character that cleaning keeps: printable ASCII, ASCII whitespace, or
/// anything beyond ASCII.
pub open spec fn is_kept(c: char) -> bool {
    is_ascii_graphic(c) || is_ascii_space(c) || c as u32 > 127
}

/// `s` without the characters that cleaning drops.
pub open spec fn kept(s: Seq<char>) -> Seq<char>
    decreases s.len(),
{
    if s.len() == 0 {
        s
    } else if is_kept(s.last()) {
        kept(s.drop_last()).push(s.last())
    } else {
        kept(s.drop_last())
    }
}

/// The end of the run of non-whitespace characters that starts at `i`.
pub open spec fn word_end(s: Seq<char>, i: int) -> int
    decreases s.len() - i,
{
    if 0 <= i < s.len() && !is_space(s[i]) {
        word_end(s, i + 1)
    } else {
        i
    }
}

/// `a` and `b` joined by one space, where both are non-empty.
pub open spec fn glue(a: Seq<char>, b: Seq<char>) -> Seq<char> {
    if a.len() == 0 {
        b
    } else if b.len() == 0 {
        a
    } else {
        a + seq![' '] + b
    }
}

/// The words of `s` from index `i` on, joined by single spaces.
pub open spec fn words_from(s: Seq<char>, i: int) -> Seq<char>
    decreases s.len() - i,
{
    if i < 0 || i >= s.len() {
        Seq::empty()
    } else if is_space(s[i]) {
        words_from(s, i + 1)
    } else {
        proof {
            lemma_word_end(s, i + 1);
        }
        glue(s.subrange(i, word_end(s, i)), words_from(s, word_end(s, i)))
    }
}

/// The words of `s` joined by single spaces: runs of whitespace become one
/// space, and none is left at either end.
pub open spec fn squeeze(s: Seq<char>) -> Seq<char> {
    words_from(s, 0)
}

/// What cleaning makes of `s`: dropped characters removed, then whitespace
/// squeezed.
pub open spec fn cleaned(s: Seq<char>) -> Seq<char> {
    squeeze(kept(s))
}

pub proof fn lemma_word_end(s: Seq<char>, i: int)
    requires
        0 <= i <= s.len(),
    ensures
        i <= word_end(s, i) <= s.len(),
        forall|k: int| i <= k < word_end(s, i) ==> !is_space(#[trigger] s[k]),
        word_end(s, i) < s.len() ==> is_space(s[word_end(s, i)]),
    decreases s.len() - i,
{
    if i < s.len() && !is_space(s[i]) {
        lemma_word_end(s, i + 1);
    }
}

proof fn lemma_glue_assoc(a: Seq<char>, w: Seq<char>, r: Seq<char>)
    requires
        w.len() > 0,
    ensures
        glue(a, glue(w, r)) == glue(glue(a, w), r),
{
    if a.len() > 0 && r.len() > 0 {
        assert(a + seq![' '] + (w + seq![' '] + r) =~= a + seq![' '] + w + seq![' '] + r);
    }
}

/// Whether `c` is whitespace in the Unicode sense.
pub fn char_is_space(c: char) -> (r: bool)
    ensures
        r == is_space(c),
{
    let u = c as u32;
    (0x09 <= u && u <= 0x0d) || u == 0x20 || u == 0x85 || u == 0xa0 || u == 0x1680 || (0x2000
        <= u && u <= 0x200a) || u == 0x2028 || u == 0x2029 || u == 0x202f || u == 0x205f || u
        == 0x3000
}

/// Whether `c` is a control character.
pub fn char_is_control(c: char) -> (r: bool)
    ensures
        r == is_control(c),
{
    let u = c as u32;
    u <= 0x1f || (0x7f <= u && u <= 0x9f)
}

/// Whether cleaning keeps `c`.
pub fn char_is_kept(c: char) -> (r: bool)
    ensures
        r == is_kept(c),
{
    let u = c as u32;
    (0x21 <= u && u <= 0x7e) || u == 0x20 || u == 0x09 || u == 0x0a || u == 0x0c || u == 0x0d
        || u > 127
}

/// Relies on `String::push`: appends one character.
#[verifier::external_body]
pub(crate) fn push_char(s: &mut String, c: char)
    ensures
        final(s)@ == old(s)@.push(c),
{
    s.push(c);
}

/// The characters of `s`, in order.
pub fn chars_of(s: &str) -> (r: Vec<char>)
    ensures
        r@ == s@,
{
    let mut out: Vec<char> = Vec::new();
    let mut it = s.chars();
    loop
        invariant
            out@ + it.remaining() == s@,
            it.obeys_prophetic_iter_laws(),
            it.decrease() is Some,
        ensures
            out@ == s@,
        decreases it.decrease()->0,
    {
        match it.next() {
            Some(c) => {
                out.push(c);
            },
            None => {
                assert(out@ + it.remaining() =~= out@);
                break;
            },
        }
    }
    out
}

/// The characters of `v` as a string.
pub fn string_of(v: &Vec<char>) -> (r: String)
    ensures
        r@ == v@,
{
    let mut out = String::new();
    let mut i: usize = 0;
    while i < v.len()
        invariant
            0 <= i <= v.len(),
            out@ == v@.take(i as int),
        decreases v.len() - i,
    {
        push_char(&mut out, v[i]);
        assert(v@.take(i as int).push(v@[i as int]) =~= v@.take(i as int + 1));
        i = i + 1;
    }
    assert(v@.take(v.len() as int) =~= v@);
    out
}

/// `s` without the characters that cleaning drops.
fn keep_printable(s: &Vec<char>) -> (r: Vec<char>)
    ensures
        r@ == kept(s@),
{
    let mut out: Vec<char> = Vec::new();
    let mut i: usize = 0;
    while i < s.len()
        invariant
            0 <= i <= s.len(),
            out@ == kept(s@.take(i as int)),
        decreases s.len() - i,
    {
        let ghost t = s@.take(i as int + 1);
        assert(t.drop_last() =~= s@.take(i as int));
        assert(t.last() == s@[i as int]);
        if char_is_kept(s[i]) {
            out.push(s[i]);
        }
        i = i + 1;
    }
    assert(s@.take(s.len() as int) =~= s@);
    out
}

/// The words of `s` joined by single spaces.
fn squeeze_spaces(s: &Vec<char>) -> (r: Vec<char>)
    ensures
        r@ == squeeze(s@),
{
    let n = s.len();
    let mut out: Vec<char> = Vec::new();
    let mut i: usize = 0;
    while i < n
        invariant
            n == s.len(),
            0 <= i <= n,
            glue(out@, words_from(s@, i as int)) == squeeze(s@),
        decreases n - i,
    {
        if char_is_space(s[i]) {
            i = i + 1;
        } else {
            proof {
                lemma_word_end(s@, i as int);
                lemma_word_end(s@, i as int + 1);
                lemma_glue_assoc(
                    out@,
                    s@.subrange(i as int, word_end(s@, i as int)),
                    words_from(s@, word_end(s@, i as int)),
                );
            }
            let ghost start = out@;
            if out.len() > 0 {
                out.push(' ');
            }
            let ghost base = out@;
            let mut j: usize = i;
            while j < n && !char_is_space(s[j])
                invariant
                    n == s.len(),
                    i <= j <= word_end(s@, i as int),
                    word_end(s@, i as int) <= n,
                    forall|k: int| i <= k < word_end(s@, i as int) ==> !is_space(#[trigger] s@[k]),
                    word_end(s@, i as int) < n ==> is_space(s@[word_end(s@, i as int)]),
                    out@ == base + s@.subrange(i as int, j as int),
                decreases n - j,
            {
                out.push(s[j]);
                assert(base + s@.subrange(i as int, j as int + 1) =~= (base + s@.subrange(
                    i as int,
                    j as int,
                )).push(s@[j as int]));
                j = j + 1;
            }
            assert(j == word_end(s@, i as int));
            assert(out@ =~= glue(start, s@.subrange(i as int, j as int)));
            i = j;
        }
    }
    assert(glue(out@, Seq::empty()) == out@);
    out
}

/// `s` without the whitespace at its start.
pub open spec fn trim_start(s: Seq<char>) -> Seq<char>
    decreases s.len(),
{
    if s.len() > 0 && is_space(s[0]) {
        trim_start(s.drop_first())
    } else {
        s
    }
}

/// `s` without the whitespace at its end.
pub open spec fn trim_end(s: Seq<char>) -> Seq<char>
    decreases s.len(),
{
    if s.len() > 0 && is_space(s.last()) {
        trim_end(s.drop_last())
    } else {
        s
    }
}

/// `s` without whitespace at either end.
pub open spec fn trimmed(s: Seq<char>) -> Seq<char> {
    trim_end(trim_start(s))
}

/// `pat` stands in `s` at `i`.
pub open spec fn occurs_at_spec(s: Seq<char>, i: int, pat: Seq<char>) -> bool {
    0 <= i && i + pat.len() <= s.len() && s.subrange(i, i + pat.len()) == pat
}

/// `s` holds `pat` somewhere.
pub open spec fn holds(s: Seq<char>, pat: Seq<char>) -> bool {
    exists|i: int| occurs_at_spec(s, i, pat)
}

/// `s` starts with `pat`.
pub open spec fn begins(s: Seq<char>, pat: Seq<char>) -> bool {
    occurs_at_spec(s, 0, pat)
}

/// `s` without whitespace at either end.
pub fn trim(s: &str) -> (r: String)
    ensures
        r@ == trimmed(s@),
{
    let t = chars_of(s);
    let n = t.len();
    let mut a: usize = 0;
    assert(t@.subrange(0, n as int) =~= t@);
    while a < n && char_is_space(t[a])
        invariant
            n == t.len(),
            t@ == s@,
            0 <= a <= n,
            trim_start(s@) == trim_start(t@.subrange(a as int, n as int)),
        decreases n - a,
    {
        assert(t@.subrange(a as int, n as int).drop_first() =~= t@.subrange(a as int + 1, n as int));
        a = a + 1;
    }
    assert(trim_start(s@) == t@.subrange(a as int, n as int));
    let mut b: usize = n;
    while b > a && char_is_space(t[b - 1])
        invariant
            n == t.len(),
            0 <= a <= b <= n,
            trimmed(s@) == trim_end(t@.subrange(a as int, b as int)),
        decreases b,
    {
        assert(t@.subrange(a as int, b as int).drop_last() =~= t@.subrange(a as int, b as int - 1));
        b = b - 1;
    }
    assert(trimmed(s@) == t@.subrange(a as int, b as int));
    String::from_str(s.substring_char(a, b))
}

/// Whether `pat` stands in `t` at `i`.
pub fn occurs_at(t: &Vec<char>, i: usize, pat: &Vec<char>) -> (r: bool)
    ensures
        r == occurs_at_spec(t@, i as int, pat@),
{
    if i > t.len() || pat.len() > t.len() - i {
        return false;
    }
    let mut k: usize = 0;
    while k < pat.len()
        invariant
            i + pat.len() <= t.len(),
            0 <= k <= pat.len(),
            forall|m: int| 0 <= m < k ==> t@[i + m] == pat@[m],
        decreases pat.len() - k,
    {
        if t[i + k] != pat[k] {
            assert(t@.subrange(i as int, i + pat.len())[k as int] != pat@[k as int]);
            return false;
        }
        k = k + 1;
    }
    assert(t@.subrange(i as int, i + pat.len()) =~= pat@);
    true
}

/// Whether `s` holds `pat` somewhere.
pub fn contains(s: &str, pat: &str) -> (r: bool)
    ensures
        r == holds(s@, pat@),
{
    let t = chars_of(s);
    let p = chars_of(pat);
    if p.len() == 0 {
        assert(s@.subrange(0, 0) =~= pat@);
        assert(occurs_at_spec(s@, 0, pat@));
        return true;
    }
    let mut i: usize = 0;
    while i < t.len()
        invariant
            t@ == s@,
            p@ == pat@,
            forall|q: int| 0 <= q < i ==> !occurs_at_spec(t@, q, p@),
        decreases t.len() - i,
    {
        if occurs_at(&t, i, &p) {
            return true;
        }
        i = i + 1;
    }
    assert forall|q: int| !occurs_at_spec(s@, q, pat@) by {
        if 0 <= q < i {
            assert(!occurs_at_spec(t@, q, p@));
        } else if q >= i {
            assert(q + pat@.len() > s@.len());
        }
    }
    false
}

/// Whether `s` starts with `pat`.
pub fn starts_with(s: &str, pat: &str) -> (r: bool)
    ensures
        r == begins(s@, pat@),
{
    let t = chars_of(s);
    let p = chars_of(pat);
    occurs_at(&t, 0, &p)
}

/// The decimal digit for `d`.
pub open spec fn digit(d: nat) -> char {
    (0x30 + d) as u8 as char
}

/// The decimal form of `n`, with no leading zeros.
pub open spec fn decimal(n: nat) -> Seq<char>
    decreases n,
{
    if n < 10 {
        seq![digit(n)]
    } else {
        decimal(n / 10).push(digit(n % 10))
    }
}

/// Appends the decimal form of `n` to `out`.
pub fn push_decimal(out: &mut String, n: usize)
    ensures
        final(out)@ == old(out)@ + decimal(n as nat),
    decreases n,
{
    if n >= 10 {
        push_decimal(out, n / 10);
    }
    let d = (n % 10) as u8;
    let c = (0x30u8 + d) as char;
    assert(c == digit(n as nat % 10));
    push_char(out, c);
    assert(old(out)@ + decimal(n as nat) =~= final(out)@) by {
        if n >= 10 {
            assert(old(out)@ + decimal(n as nat / 10) + seq![digit(n as nat % 10)] =~= old(out)@ + decimal(
                n as nat / 10,
            ).push(digit(n as nat % 10)));
        }
    }
}

/// `text` with the characters that cleaning drops removed and each run of
/// whitespace made one space, with none at either end.
pub fn clean_text(text: &str) -> (r: String)
    ensures
        r@ == cleaned(text@),
{
    let chars = chars_of(text);
    let printable = keep_printable(&chars);
    let squeezed = squeeze_spaces(&printable);
    string_of(&squeezed)
}

} // verus!
