use album_player::playlist::{
    judge_entry, line_is_comment, parse_playlist, playlist_entries, playlist_lines, PlaylistEntry,
    PlaylistLoad, SkipReason, Skipped,
};
use album_player::range::{parse_track_ranges, RangeSelector};
use album_player::source::{
    audio_entries, classify_extension, directory_tracks, extension, file_kind, plan_for,
    plan_source, single_track, FileKind, PathKind, SourceError, SourcePlan,
};

fn strings(items: &[&str]) -> Vec<String> {
    items.iter().map(|s| s.to_string()).collect()
}

#[test]
fn extension_is_the_part_after_the_last_dot() {
    assert_eq!(extension("a.mp3"), Some("mp3".to_string()));
    assert_eq!(extension("/music/album/b.tar.flac"), Some("flac".to_string()));
    assert_eq!(extension("noext"), None);
    assert_eq!(extension(".hidden"), None);
    assert_eq!(extension("dir.d/file"), None);
    assert_eq!(extension(""), None);
}

#[test]
fn extensions_are_classified() {
    assert_eq!(classify_extension(&Some("mp3".to_string())), FileKind::Audio);
    assert_eq!(classify_extension(&Some("wav".to_string())), FileKind::Audio);
    assert_eq!(classify_extension(&Some("flac".to_string())), FileKind::Audio);
    assert_eq!(classify_extension(&Some("m3u8".to_string())), FileKind::Playlist);
    assert_eq!(classify_extension(&Some("txt".to_string())), FileKind::Unsupported);
    assert_eq!(classify_extension(&Some("m3u".to_string())), FileKind::Unsupported);
    assert_eq!(classify_extension(&Some("mp4".to_string())), FileKind::Unsupported);
    assert_eq!(classify_extension(&Some("flacs".to_string())), FileKind::Unsupported);
    assert_eq!(classify_extension(&Some(String::new())), FileKind::Unsupported);
    assert_eq!(classify_extension(&None), FileKind::Unsupported);
}

#[test]
fn extension_case_counts() {
    assert_eq!(classify_extension(&Some("MP3".to_string())), FileKind::Unsupported);
    assert_eq!(file_kind("Song.Flac"), FileKind::Unsupported);
    assert_eq!(file_kind("list.M3U8"), FileKind::Unsupported);
}

#[test]
fn files_are_judged_by_their_path() {
    assert_eq!(file_kind("a.mp3"), FileKind::Audio);
    assert_eq!(file_kind("/music/b.wav"), FileKind::Audio);
    assert_eq!(file_kind("rel/c.flac"), FileKind::Audio);
    assert_eq!(file_kind("list.m3u8"), FileKind::Playlist);
    assert_eq!(file_kind("notes.txt"), FileKind::Unsupported);
    assert_eq!(file_kind("mp3"), FileKind::Unsupported);
    assert_eq!(file_kind(".mp3"), FileKind::Unsupported);
    assert_eq!(file_kind("album.mp3/cover"), FileKind::Unsupported);
}

#[test]
fn missing_path_is_a_path_error() {
    assert_eq!(plan_source("a.mp3", PathKind::Missing), Err(SourceError::PathError));
    assert_eq!(plan_source("album", PathKind::Missing), Err(SourceError::PathError));
}

#[test]
fn audio_file_is_a_single_track() {
    assert_eq!(plan_source("a.mp3", PathKind::File), Ok(SourcePlan::SingleTrack));
    assert_eq!(single_track("a.mp3"), strings(&["a.mp3"]));
}

#[test]
fn playlist_file_is_read() {
    assert_eq!(plan_source("mix.m3u8", PathKind::File), Ok(SourcePlan::ReadPlaylist));
}

#[test]
fn other_file_is_unsupported() {
    assert_eq!(plan_source("c.txt", PathKind::File), Err(SourceError::UnsupportedExtension));
    assert_eq!(plan_source("README", PathKind::File), Err(SourceError::UnsupportedExtension));
    assert_eq!(plan_for(&None, PathKind::File), Err(SourceError::UnsupportedExtension));
    assert_eq!(
        plan_for(&Some("ogg".to_string()), PathKind::File),
        Err(SourceError::UnsupportedExtension)
    );
}

#[test]
fn directory_is_listed_whatever_its_name() {
    assert_eq!(plan_source("album", PathKind::Directory), Ok(SourcePlan::ListDirectory));
    assert_eq!(plan_source("album.mp3", PathKind::Directory), Ok(SourcePlan::ListDirectory));
    assert_eq!(plan_for(&None, PathKind::Directory), Ok(SourcePlan::ListDirectory));
    assert_eq!(plan_for(&Some("wav".to_string()), PathKind::File), Ok(SourcePlan::SingleTrack));
    assert_eq!(plan_for(&Some("m3u8".to_string()), PathKind::File), Ok(SourcePlan::ReadPlaylist));
    assert_eq!(plan_for(&Some("wav".to_string()), PathKind::Missing), Err(SourceError::PathError));
}

#[test]
fn directory_keeps_audio_entries_in_listing_order() {
    let listing = strings(&["d/z.mp3", "d/cover.jpg", "d/a.mp3", "d/sub", "d/b.wav", "d/.flac"]);
    assert_eq!(audio_entries(&listing), strings(&["d/z.mp3", "d/a.mp3", "d/b.wav"]));
    assert_eq!(audio_entries(&Vec::new()), Vec::<String>::new());
}

#[test]
fn directory_without_selector_is_not_sorted() {
    let listing = strings(&["z.mp3", "a.mp3"]);
    let got = directory_tracks(&listing, &RangeSelector::unbounded());
    assert_eq!(got, strings(&["z.mp3", "a.mp3"]));
    let mut sorted = got.clone();
    sorted.sort();
    assert_eq!(sorted, strings(&["a.mp3", "z.mp3"]));
    let other = directory_tracks(&strings(&["a.mp3", "z.mp3"]), &RangeSelector::unbounded());
    assert_eq!(other, strings(&["a.mp3", "z.mp3"]));
}

#[test]
fn directory_is_sliced_after_filtering() {
    let listing = strings(&["one.mp3", "notes.txt", "two.flac", "three.wav", "four.mp3"]);
    let range = parse_track_ranges("1:-1").unwrap();
    assert_eq!(directory_tracks(&listing, &range), strings(&["two.flac", "three.wav"]));
}

#[test]
fn lines_are_split_as_the_standard_library_splits_them() {
    let samples = [
        "", "a", "a\n", "a\nb", "a\n\nb\n", "\n", "\n\n", "a\r\nb\r\n", "a\r", "a\r\n", "\r\n",
        "a\rb\nc", "a\r\r\nb", "#c\na.mp3\n", "x\n\r", "\r", "a\n\r\nb",
    ];
    for text in samples {
        let expected: Vec<String> = text.lines().map(|l| l.to_string()).collect();
        assert_eq!(playlist_lines(text), expected, "{:?}", text);
    }
}

#[test]
fn comment_lines_start_with_a_hash() {
    assert!(line_is_comment("#EXTM3U"));
    assert!(line_is_comment("#"));
    assert!(!line_is_comment(""));
    assert!(!line_is_comment(" #indented"));
    assert!(!line_is_comment("a#b.mp3"));
}

#[test]
fn entries_are_the_lines_that_are_no_comments() {
    let text = "#EXTM3U\na.mp3\n#EXTINF:1,b\n\nb.flac\r\n # not a comment\n";
    assert_eq!(playlist_entries(text), strings(&["a.mp3", "", "b.flac", " # not a comment"]));
    assert_eq!(playlist_entries(""), Vec::<String>::new());
    assert_eq!(playlist_entries("#only\n#comments"), Vec::<String>::new());
}

fn entry(path: &str, exists: bool) -> PlaylistEntry {
    PlaylistEntry { path: path.to_string(), exists }
}

#[test]
fn entries_are_judged() {
    assert_eq!(judge_entry(&entry("a.mp3", true)), None);
    assert_eq!(judge_entry(&entry("a.mp3", false)), Some(SkipReason::Missing));
    assert_eq!(judge_entry(&entry("c.txt", true)), Some(SkipReason::NotAudio));
    assert_eq!(judge_entry(&entry("c.txt", false)), Some(SkipReason::Missing));
    assert_eq!(judge_entry(&entry("noext", true)), Some(SkipReason::NotAudio));
    assert_eq!(judge_entry(&entry("list.m3u8", true)), Some(SkipReason::NotAudio));
}

#[test]
fn playlist_skips_bad_lines_and_keeps_order() {
    let text = "#comment\na.mp3\nmissing.mp3\nb.flac\nc.txt";
    let lines = playlist_entries(text);
    assert_eq!(lines, strings(&["a.mp3", "missing.mp3", "b.flac", "c.txt"]));
    let present = ["a.mp3", "b.flac", "c.txt"];
    let entries: Vec<PlaylistEntry> =
        lines.iter().map(|l| entry(l, present.contains(&l.as_str()))).collect();
    let load = parse_playlist(&entries);
    assert_eq!(
        load,
        PlaylistLoad {
            tracks: strings(&["a.mp3", "b.flac"]),
            skipped: vec![
                Skipped { line: "missing.mp3".to_string(), reason: SkipReason::Missing },
                Skipped { line: "c.txt".to_string(), reason: SkipReason::NotAudio },
            ],
        }
    );
    assert_eq!(load.skipped.len(), 2);
}

#[test]
fn playlist_where_c_txt_is_missing_too() {
    let entries = vec![
        entry("a.mp3", true),
        entry("missing.mp3", false),
        entry("b.flac", true),
        entry("c.txt", false),
    ];
    let load = parse_playlist(&entries);
    assert_eq!(load.tracks, strings(&["a.mp3", "b.flac"]));
    assert_eq!(
        load.skipped,
        vec![
            Skipped { line: "missing.mp3".to_string(), reason: SkipReason::Missing },
            Skipped { line: "c.txt".to_string(), reason: SkipReason::Missing },
        ]
    );
}

#[test]
fn empty_playlist_has_no_tracks() {
    let load = parse_playlist(&Vec::new());
    assert_eq!(load, PlaylistLoad { tracks: Vec::new(), skipped: Vec::new() });
}

#[test]
fn blank_line_is_skipped_as_missing() {
    let load = parse_playlist(&vec![entry("", false), entry("a.wav", true)]);
    assert_eq!(load.tracks, strings(&["a.wav"]));
    assert_eq!(load.skipped, vec![Skipped { line: String::new(), reason: SkipReason::Missing }]);
}
