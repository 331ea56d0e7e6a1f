//! Working out which file a finished download wrote, from listings of the
//! target folder taken before and after it.
use vstd::prelude::*;
use vstd::string::*;
use crate::text::{chars_of, occurs_at};

verus! {

/// The extension of the audio files looked for.
pub const AUDIO_SUFFIX: &'static str = ".mp3";

/// The name reported when the folder shows no audio file at all.
pub const UNKNOWN_FILE: &'static str = "unknown.mp3";

/// One entry of a folder listing.
#[derive(Debug, Clone)]
pub struct FileEntry {
    /// The entry's file name.
    pub name: String,
    /// Whether the entry is a regular file.
    pub is_file: bool,
    /// When it was last modified, in nanoseconds since the Unix epoch.
    pub modified_nanos: u128,
}

/// A file name with a `.mp3` extension: it ends in `.mp3` and has something
/// before that dot.
pub open spec fn is_audio_name(s: Seq<char>) -> bool {
    s.len() > AUDIO_SUFFIX@.len() && s.subrange(s.len() - AUDIO_SUFFIX@.len(), s.len() as int)
        == AUDIO_SUFFIX@
}

/// The views of a sequence of strings.
pub open spec fn names(v: Seq<String>) -> Seq<Seq<char>> {
    v.map_values(|s: String| s@)
}

/// The names of the audio files of a listing, in listing order.
pub open spec fn audio_files(es: Seq<FileEntry>) -> Seq<Seq<char>>
    decreases es.len(),
{
    if es.len() == 0 {
        Seq::empty()
    } else if es.last().is_file && is_audio_name(es.last().name@) {
        audio_files(es.drop_last()).push(es.last().name@)
    } else {
        audio_files(es.drop_last())
    }
}

/// The first name of `after` that `before` does not hold.
pub open spec fn first_new(before: Seq<Seq<char>>, after: Seq<Seq<char>>) -> Option<Seq<char>>
    decreases after.len(),
{
    if after.len() == 0 {
        None
    } else if !before.contains(after[0]) {
        Some(after[0])
    } else {
        first_new(before, after.drop_first())
    }
}

/// Entry `i` is the audio entry modified last; of several modified at that
/// same time, the one listed last.
pub open spec fn newest(es: Seq<FileEntry>, i: int) -> bool {
    &&& 0 <= i < es.len()
    &&& is_audio_name(es[i].name@)
    &&& forall|j: int|
        0 <= j < es.len() && is_audio_name(#[trigger] es[j].name@) ==> es[j].modified_nanos
            <= es[i].modified_nanos
    &&& forall|j: int|
        i < j < es.len() && is_audio_name(#[trigger] es[j].name@) ==> es[j].modified_nanos
            < es[i].modified_nanos
}

/// The newest audio entry of a listing, if there is one.
pub open spec fn latest(es: Seq<FileEntry>) -> Option<int> {
    if exists|i: int| newest(es, i) {
        Some(choose|i: int| newest(es, i))
    } else {
        None
    }
}

/// The file that a download wrote, given the audio files listed before it
/// and the listing after it (`None` where the folder could not be read):
/// the first audio file that is new; else the newest audio entry; else
/// `UNKNOWN_FILE`.
pub open spec fn resolved(before: Seq<Seq<char>>, after: Option<Seq<FileEntry>>) -> Seq<char> {
    let es = match after {
        Some(es) => es,
        None => Seq::empty(),
    };
    match first_new(before, audio_files(es)) {
        Some(name) => name,
        None => match latest(es) {
            Some(i) => es[i].name@,
            None => UNKNOWN_FILE@,
        },
    }
}

proof fn lemma_newest_unique(es: Seq<FileEntry>, i: int, k: int)
    requires
        newest(es, i),
        newest(es, k),
    ensures
        i == k,
{
    if i < k {
        assert(es[k].modified_nanos < es[i].modified_nanos);
        assert(es[k].modified_nanos >= es[i].modified_nanos);
    } else if k < i {
        assert(es[i].modified_nanos < es[k].modified_nanos);
        assert(es[i].modified_nanos >= es[k].modified_nanos);
    }
}

/// Whether `name` has a `.mp3` extension.
pub fn is_audio_file_name(name: &str) -> (r: bool)
    ensures
        r == is_audio_name(name@),
{
    let t = chars_of(name);
    let suffix = chars_of(AUDIO_SUFFIX);
    if t.len() > suffix.len() {
        occurs_at(&t, t.len() - suffix.len(), &suffix)
    } else {
        false
    }
}

/// The names of the audio files of a listing, in listing order.
pub fn audio_file_names(entries: &Vec<FileEntry>) -> (r: Vec<String>)
    ensures
        names(r@) == audio_files(entries@),
{
    let mut out: Vec<String> = Vec::new();
    let mut i: usize = 0;
    while i < entries.len()
        invariant
            0 <= i <= entries.len(),
            names(out@) == audio_files(entries@.take(i as int)),
        decreases entries.len() - i,
    {
        let ghost before = out@;
        assert(entries@.take(i as int + 1).drop_last() =~= entries@.take(i as int));
        if entries[i].is_file && is_audio_file_name(entries[i].name.as_str()) {
            out.push(entries[i].name.clone());
            assert(names(out@) =~= names(before).push(entries@[i as int].name@));
        }
        i = i + 1;
    }
    assert(entries@.take(entries.len() as int) =~= entries@);
    out
}

/// Whether `names` holds `name`.
fn holds_name(names_seen: &Vec<String>, name: &String) -> (r: bool)
    ensures
        r == names(names_seen@).contains(name@),
{
    let mut j: usize = 0;
    while j < names_seen.len()
        invariant
            0 <= j <= names_seen.len(),
            forall|m: int| 0 <= m < j ==> names_seen@[m]@ != name@,
        decreases names_seen.len() - j,
    {
        if names_seen[j] == *name {
            assert(names(names_seen@)[j as int] == name@);
            return true;
        }
        j = j + 1;
    }
    assert(!names(names_seen@).contains(name@) ) by {
        if names(names_seen@).contains(name@) {
            let m = choose|m: int| 0 <= m < names(names_seen@).len() && names(names_seen@)[m] == name@;
            assert(names_seen@[m]@ == name@);
        }
    }
    false
}

/// The first name of `after` that `before` does not hold.
pub fn first_new_name(before: &Vec<String>, after: &Vec<String>) -> (r: Option<String>)
    ensures
        match r {
            Some(n) => first_new(names(before@), names(after@)) == Some(n@),
            None => first_new(names(before@), names(after@)) is None,
        },
{
    let ghost b = names(before@);
    let ghost a = names(after@);
    let mut i: usize = 0;
    assert(a.skip(0) =~= a);
    while i < after.len()
        invariant
            b == names(before@),
            a == names(after@),
            0 <= i <= after.len(),
            first_new(b, a) == first_new(b, a.skip(i as int)),
        decreases after.len() - i,
    {
        assert(a.skip(i as int)[0] == after@[i as int]@);
        assert(a.skip(i as int).drop_first() =~= a.skip(i as int + 1));
        if !holds_name(before, &after[i]) {
            return Some(after[i].clone());
        }
        i = i + 1;
    }
    assert(a.skip(i as int).len() == 0);
    None
}

/// The index of the newest audio entry of a listing, if there is one.
pub fn newest_audio_entry(entries: &Vec<FileEntry>) -> (r: Option<usize>)
    ensures
        match r {
            Some(i) => latest(entries@) == Some(i as int),
            None => latest(entries@) is None,
        },
{
    let ghost es = entries@;
    let mut best: Option<usize> = None;
    let mut i: usize = 0;
    while i < entries.len()
        invariant
            es == entries@,
            0 <= i <= entries.len(),
            match best {
                Some(b) => newest(es.take(i as int), b as int),
                None => forall|j: int| 0 <= j < i ==> !is_audio_name(#[trigger] es[j].name@),
            },
        decreases entries.len() - i,
    {
        let ghost pre = es.take(i as int);
        let ghost post = es.take(i as int + 1);
        assert(forall|j: int| 0 <= j < i ==> post[j] == #[trigger] pre[j]);
        if is_audio_file_name(entries[i].name.as_str()) {
            match best {
                Some(b) => {
                    if entries[b].modified_nanos <= entries[i].modified_nanos {
                        best = Some(i);
                    }
                },
                None => {
                    best = Some(i);
                },
            }
        }
        proof {
            match best {
                Some(b) => {
                    assert forall|j: int|
                        0 <= j < post.len() && is_audio_name(#[trigger] post[j].name@) implies post[j].modified_nanos
                        <= post[b as int].modified_nanos by {
                        if j < i {
                            assert(pre[j] == post[j]);
                        }
                    }
                    assert forall|j: int|
                        b < j < post.len() && is_audio_name(#[trigger] post[j].name@) implies post[j].modified_nanos
                        < post[b as int].modified_nanos by {
                        if j < i {
                            assert(pre[j] == post[j]);
                        }
                    }
                    assert(newest(post, b as int));
                },
                None => {},
            }
        }
        i = i + 1;
    }
    assert(es.take(i as int) =~= es);
    match best {
        Some(b) => {
            proof {
                let c = choose|k: int| newest(es, k);
                lemma_newest_unique(es, b as int, c);
            }
            Some(b)
        },
        None => {
            assert(!exists|k: int| newest(es, k));
            None
        },
    }
}

/// The name of the file that a download wrote (see `resolved`), given the
/// audio files listed before it and the listing after it, `None` where the
/// folder could not be read.
pub fn resolve_file_name(before: &Vec<String>, after: &Option<Vec<FileEntry>>) -> (r: String)
    ensures
        r@ == resolved(
            names(before@),
            match after {
                Some(es) => Some(es@),
                None => None,
            },
        ),
{
    let empty: Vec<FileEntry> = Vec::new();
    let es: &Vec<FileEntry> = match after {
        Some(es) => es,
        None => &empty,
    };
    assert(es@ == match after {
        Some(v) => v@,
        None => Seq::<FileEntry>::empty(),
    });
    let audio = audio_file_names(es);
    match first_new_name(before, &audio) {
        Some(name) => name,
        None => match newest_audio_entry(es) {
            Some(i) => es[i].name.clone(),
            None => String::from_str(UNKNOWN_FILE),
        },
    }
}

} // verus!
