use dj_cli::resolve::{audio_file_names, is_audio_file_name, resolve_file_name, FileEntry};

fn entry(name: &str, is_file: bool, modified_nanos: u128) -> FileEntry {
    FileEntry { name: name.to_string(), is_file, modified_nanos }
}

fn names(v: &[&str]) -> Vec<String> {
    v.iter().map(|s| s.to_string()).collect()
}

#[test]
fn new_file_is_found_by_difference() {
    let before = names(&["a.mp3"]);
    let after = Some(vec![entry("a.mp3", true, 10), entry("b.mp3", true, 5)]);
    assert_eq!(resolve_file_name(&before, &after), "b.mp3");
}

#[test]
fn overwritten_file_falls_back_to_newest() {
    let before = names(&["a.mp3"]);
    let after = Some(vec![entry("a.mp3", true, 10)]);
    assert_eq!(resolve_file_name(&before, &after), "a.mp3");
}

#[test]
fn newest_wins_and_ties_go_to_the_later_entry() {
    let before = names(&["a.mp3", "b.mp3", "c.mp3"]);
    let after = Some(vec![
        entry("a.mp3", true, 7),
        entry("b.mp3", true, 9),
        entry("notes.txt", true, 99),
        entry("c.mp3", true, 9),
    ]);
    assert_eq!(resolve_file_name(&before, &after), "c.mp3");
}

#[test]
fn nothing_found_gives_unknown() {
    assert_eq!(resolve_file_name(&Vec::new(), &None), "unknown.mp3");
    let after = Some(vec![entry("x.wav", true, 1), entry(".mp3", true, 2)]);
    assert_eq!(resolve_file_name(&Vec::new(), &after), "unknown.mp3");
}

#[test]
fn first_new_file_in_listing_order() {
    let before = names(&["a.mp3"]);
    let after = Some(vec![
        entry("a.mp3", true, 1),
        entry("d.mp3", true, 1),
        entry("c.mp3", true, 50),
    ]);
    assert_eq!(resolve_file_name(&before, &after), "d.mp3");
}

#[test]
fn audio_names_skip_folders_and_other_files() {
    let listing = vec![
        entry("song.mp3", true, 1),
        entry("album.mp3", false, 1),
        entry("cover.jpg", true, 1),
        entry(".mp3", true, 1),
        entry("x.mp3", true, 1),
    ];
    assert_eq!(audio_file_names(&listing), names(&["song.mp3", "x.mp3"]));
}

#[test]
fn audio_name_rule() {
    assert!(is_audio_file_name("a.mp3"));
    assert!(is_audio_file_name("..mp3"));
    assert!(!is_audio_file_name(".mp3"));
    assert!(!is_audio_file_name("a.MP3"));
    assert!(!is_audio_file_name("a.mp3.part"));
}
