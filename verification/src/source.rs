//! The track source: telling audio files, playlists and directories apart,
//! and listing the audio files of a directory.

use vstd::prelude::*;
use crate::range::RangeSelector;
use crate::select::{lemma_unbounded_selects_all, select_tracks, selected};
use crate::text::{text_of, to_chars};

verus! {

/// The extension of the path `path`, as `std::path::Path::extension` reads
/// it: the part of the final component after its last dot, absent where
/// that component has none or only starts with one.
pub uninterp spec fn extension_of(path: Seq<char>) -> Option<Seq<char>>;

/// Calls `std::path::Path::extension` on `path`. The result is the
/// extension as text; the contract only names it `extension_of(path@)`.
#[verifier::external_body]
fn path_extension(path: &str) -> (r: Option<String>)
    ensures
        r is Some <==> extension_of(path@) is Some,
        r is Some ==> r.unwrap()@ == extension_of(path@).unwrap(),
{
    match std::path::Path::new(path).extension() {
        Some(e) => Some(e.to_string_lossy().into_owned()),
        None => None,
    }
}

/// What a file is taken for, judged by its extension.
#[derive(Clone, Copy, Debug, PartialEq, Eq, Structural)]
pub enum FileKind {
    /// A track that can be played: `mp3`, `wav` or `flac`.
    Audio,
    /// A list of tracks: `m3u8`.
    Playlist,
    /// Anything else, a file without extension included.
    Unsupported,
}

/// What the file system says of the input path.
#[derive(Clone, Copy, Debug, PartialEq, Eq, Structural)]
pub enum PathKind {
    /// Nothing is there, or it cannot be read.
    Missing,
    /// A regular file.
    File,
    /// A directory.
    Directory,
}

/// How the candidate tracks of an input path are to be obtained.
#[derive(Clone, Copy, Debug, PartialEq, Eq, Structural)]
pub enum SourcePlan {
    /// The input is itself the one track; no range applies.
    SingleTrack,
    /// The input is a playlist to be read line by line; no range applies.
    ReadPlaylist,
    /// The input is a directory whose entries are to be listed and sliced.
    ListDirectory,
}

/// Why an input path yields no tracks.
#[derive(Clone, Copy, Debug, PartialEq, Eq, Structural)]
pub enum SourceError {
    /// The path does not exist or cannot be read.
    PathError,
    /// The path is a file that is neither audio nor a playlist.
    UnsupportedExtension,
}

/// Whether `e` is the extension of a supported audio file. Case counts.
pub open spec fn is_audio_extension(e: Seq<char>) -> bool {
    e == seq!['m', 'p', '3'] || e == seq!['w', 'a', 'v'] || e == seq!['f', 'l', 'a', 'c']
}

/// Whether `e` is the extension of a playlist. Case counts.
pub open spec fn is_playlist_extension(e: Seq<char>) -> bool {
    e == seq!['m', '3', 'u', '8']
}

/// The kind of a file with the extension `ext`.
pub open spec fn kind_of_extension(ext: Option<Seq<char>>) -> FileKind {
    match ext {
        Some(e) => if is_audio_extension(e) {
            FileKind::Audio
        } else if is_playlist_extension(e) {
            FileKind::Playlist
        } else {
            FileKind::Unsupported
        },
        None => FileKind::Unsupported,
    }
}

/// The kind of the file at `path`.
pub open spec fn kind_of_path(path: Seq<char>) -> FileKind {
    kind_of_extension(extension_of(path))
}

/// Whether `path` names a supported audio file.
pub open spec fn is_audio_path(path: Seq<char>) -> bool {
    kind_of_path(path) == FileKind::Audio
}

/// The paths that `audio_entries` keeps.
pub open spec fn audio_filter() -> spec_fn(String) -> bool {
    |p: String| is_audio_path(p@)
}

/// The plan for an input of kind `found` with the extension `ext`.
pub open spec fn plan_of(ext: Option<Seq<char>>, found: PathKind) -> Result<
    SourcePlan,
    SourceError,
> {
    match found {
        PathKind::Missing => Err(SourceError::PathError),
        PathKind::Directory => Ok(SourcePlan::ListDirectory),
        PathKind::File => match kind_of_extension(ext) {
            FileKind::Audio => Ok(SourcePlan::SingleTrack),
            FileKind::Playlist => Ok(SourcePlan::ReadPlaylist),
            FileKind::Unsupported => Err(SourceError::UnsupportedExtension),
        },
    }
}

/// Judges a file by its extension, `None` standing for a file without one.
pub fn classify_extension(ext: &Option<String>) -> (k: FileKind)
    ensures
        k == kind_of_extension(text_of(*ext)),
{
    match ext {
        None => FileKind::Unsupported,
        Some(text) => {
            let e = to_chars(text.as_str());
            let n: usize = e.len();
            if n == 3 && e[0] == 'm' && e[1] == 'p' && e[2] == '3' {
                assert(e@ =~= seq!['m', 'p', '3']);
                FileKind::Audio
            } else if n == 3 && e[0] == 'w' && e[1] == 'a' && e[2] == 'v' {
                assert(e@ =~= seq!['w', 'a', 'v']);
                FileKind::Audio
            } else if n == 4 && e[0] == 'f' && e[1] == 'l' && e[2] == 'a' && e[3] == 'c' {
                assert(e@ =~= seq!['f', 'l', 'a', 'c']);
                FileKind::Audio
            } else if n == 4 && e[0] == 'm' && e[1] == '3' && e[2] == 'u' && e[3] == '8' {
                assert(e@ =~= seq!['m', '3', 'u', '8']);
                FileKind::Playlist
            } else {
                FileKind::Unsupported
            }
        },
    }
}

/// The extension of `path`, if it has one.
pub fn extension(path: &str) -> (r: Option<String>)
    ensures
        text_of(r) == extension_of(path@),
{
    path_extension(path)
}

/// Judges the file at `path` by its extension.
pub fn file_kind(path: &str) -> (k: FileKind)
    ensures
        k == kind_of_path(path@),
{
    let ext = path_extension(path);
    classify_extension(&ext)
}

/// Decides from an extension and from what the file system found how the
/// tracks are to be obtained.
pub fn plan_for(ext: &Option<String>, found: PathKind) -> (r: Result<SourcePlan, SourceError>)
    ensures
        r == plan_of(text_of(*ext), found),
{
    match found {
        PathKind::Missing => Err(SourceError::PathError),
        PathKind::Directory => Ok(SourcePlan::ListDirectory),
        PathKind::File => match classify_extension(ext) {
            FileKind::Audio => Ok(SourcePlan::SingleTrack),
            FileKind::Playlist => Ok(SourcePlan::ReadPlaylist),
            FileKind::Unsupported => Err(SourceError::UnsupportedExtension),
        },
    }
}

/// Decides how the tracks of the input at `path` are to be obtained, given
/// what the file system found there. A missing path is an error, a
/// directory is listed whatever its name, and a file is a single track, a
/// playlist or an error by its extension.
pub fn plan_source(path: &str, found: PathKind) -> (r: Result<SourcePlan, SourceError>)
    ensures
        r == plan_of(extension_of(path@), found),
{
    let ext = path_extension(path);
    plan_for(&ext, found)
}

/// The candidate list of an input that is itself an audio file: that file
/// and nothing else.
pub fn single_track(path: &str) -> (r: Vec<String>)
    ensures
        r@.len() == 1,
        r@[0]@ == path@,
{
    let mut out: Vec<String> = Vec::new();
    out.push(path.to_owned());
    out
}

/// The audio files among the entries of a directory, in the order of the
/// listing.
pub fn audio_entries(entries: &Vec<String>) -> (r: Vec<String>)
    ensures
        r@ == entries@.filter(audio_filter()),
{
    let mut out: Vec<String> = Vec::new();
    let mut i: usize = 0;
    assert(entries@.take(0).filter(audio_filter()) =~= Seq::<String>::empty()) by {
        reveal(Seq::filter);
    }
    while i < entries.len()
        invariant
            i <= entries@.len(),
            out@ == entries@.take(i as int).filter(audio_filter()),
        decreases entries@.len() - i,
    {
        proof {
            entries@.lemma_take_succ_push(i as int);
            entries@.take(i as int).lemma_filter_push(entries@[i as int], audio_filter());
        }
        match file_kind(entries[i].as_str()) {
            FileKind::Audio => {
                out.push(entries[i].clone());
            },
            _ => {},
        }
        i += 1;
    }
    assert(entries@.take(entries@.len() as int) =~= entries@);
    out
}

/// The tracks of a directory: the audio files among its entries, in the
/// order of the listing, sliced by `range`.
pub fn directory_tracks(entries: &Vec<String>, range: &RangeSelector) -> (r: Vec<String>)
    ensures
        r@ == selected(entries@.filter(audio_filter()), *range),
{
    let candidates = audio_entries(entries);
    select_tracks(&candidates, range)
}

/// Without a selector a directory yields its audio entries as they were
/// listed: none is dropped, none is added and nothing is sorted.
pub proof fn lemma_directory_keeps_listing(entries: Seq<String>)
    ensures
        selected(entries.filter(audio_filter()), RangeSelector { offset: None, limit: None })
            == entries.filter(audio_filter()),
        forall|p: String|
            selected(
                entries.filter(audio_filter()),
                RangeSelector { offset: None, limit: None },
            ).contains(p) <==> entries.contains(p) && is_audio_path(p@),
{
    let kept = entries.filter(audio_filter());
    lemma_unbounded_selects_all(kept);
    assert forall|p: String| kept.contains(p) <==> entries.contains(p) && is_audio_path(p@) by {
        if kept.contains(p) {
            let i = choose|i: int| 0 <= i < kept.len() && kept[i] == p;
            entries.lemma_filter_pred(audio_filter(), i);
            entries.lemma_filter_contains_rev(audio_filter(), p);
        }
        if entries.contains(p) && is_audio_path(p@) {
            let j = choose|j: int| 0 <= j < entries.len() && entries[j] == p;
            entries.lemma_filter_contains(audio_filter(), j);
        }
    }
}

} // verus!
