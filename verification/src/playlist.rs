//! Playlists: text with one path per line, where a line that starts with
//! `#` is a comment.

use vstd::prelude::*;
use crate::source::{file_kind, is_audio_path, FileKind};
use crate::text::{find_from, first_index_of, lemma_first_index_of, texts, to_chars};

verus! {

/// Why a line of a playlist gives no track.
#[derive(Clone, Copy, Debug, PartialEq, Eq, Structural)]
pub enum SkipReason {
    /// No file is found at the path.
    Missing,
    /// The file is there but is no supported audio file.
    NotAudio,
}

/// A line of a playlist that names a path, with what the file system says
/// of it.
#[derive(Debug, PartialEq, Eq)]
pub struct PlaylistEntry {
    pub path: String,
    pub exists: bool,
}

/// A line that was passed over, and why.
#[derive(Debug, PartialEq, Eq)]
pub struct Skipped {
    pub line: String,
    pub reason: SkipReason,
}

/// What loading a playlist gives: the tracks in the order of their lines,
/// and the lines that were passed over, in their order too.
#[derive(Debug, PartialEq, Eq)]
pub struct PlaylistLoad {
    pub tracks: Vec<String>,
    pub skipped: Vec<Skipped>,
}

/// `line` without one carriage return at its end.
pub open spec fn strip_return(line: Seq<char>) -> Seq<char> {
    if line.len() > 0 && line.last() == '\r' {
        line.drop_last()
    } else {
        line
    }
}

/// The lines of `s`. A line ends at a line feed, which is not part of it,
/// nor is a carriage return just before that line feed. Text after the
/// last line feed is a line of its own if it is not empty, and is kept as
/// it stands.
pub open spec fn lines_of(s: Seq<char>) -> Seq<Seq<char>>
    decreases s.len(),
{
    let k = first_index_of(s, '\n');
    if s.len() == 0 {
        Seq::empty()
    } else if 0 <= k < s.len() {
        seq![strip_return(s.take(k))] + lines_of(s.skip(k + 1))
    } else {
        seq![s]
    }
}

/// Whether `line` is a comment.
pub open spec fn is_comment(line: Seq<char>) -> bool {
    line.len() > 0 && line[0] == '#'
}

/// The lines that `playlist_entries` keeps.
pub open spec fn entry_filter() -> spec_fn(Seq<char>) -> bool {
    |line: Seq<char>| !is_comment(line)
}

/// Why `entry` is passed over, or `None` where it is a track. Whether the
/// file exists is asked first.
pub open spec fn verdict(entry: PlaylistEntry) -> Option<SkipReason> {
    if !entry.exists {
        Some(SkipReason::Missing)
    } else if !is_audio_path(entry.path@) {
        Some(SkipReason::NotAudio)
    } else {
        None
    }
}

/// The entries that become tracks.
pub open spec fn track_filter() -> spec_fn(PlaylistEntry) -> bool {
    |e: PlaylistEntry| verdict(e) is None
}

/// The entries that are passed over.
pub open spec fn skip_filter() -> spec_fn(PlaylistEntry) -> bool {
    |e: PlaylistEntry| verdict(e) is Some
}

/// The track of an entry.
pub open spec fn track_of() -> spec_fn(PlaylistEntry) -> String {
    |e: PlaylistEntry| e.path
}

/// The record of an entry that is passed over.
pub open spec fn skipped_of() -> spec_fn(PlaylistEntry) -> Skipped {
    |e: PlaylistEntry|
        Skipped {
            line: e.path,
            reason: match verdict(e) {
                Some(r) => r,
                None => SkipReason::Missing,
            },
        }
}

/// Splits the text of a playlist into its lines.
pub fn playlist_lines(contents: &str) -> (r: Vec<String>)
    ensures
        texts(r@) == lines_of(contents@),
{
    let chars = to_chars(contents);
    let n: usize = chars.len();
    let ghost s = chars@;
    let mut out: Vec<String> = Vec::new();
    let mut start: usize = 0;
    assert(s.skip(0) =~= s);
    assert(texts(out@) =~= Seq::<Seq<char>>::empty());
    while start < n
        invariant
            start <= n,
            n == s.len(),
            s == chars@,
            s == contents@,
            texts(out@) + lines_of(s.skip(start as int)) == lines_of(s),
        decreases n - start,
    {
        let ghost rest = s.skip(start as int);
        let ghost before = out@;
        let end: usize = find_from(&chars, start, '\n');
        proof {
            lemma_first_index_of(rest, '\n');
            assert(rest.take(end - start) =~= s.subrange(start as int, end as int));
        }
        if end == n {
            out.push(contents.substring_char(start, n).to_owned());
            proof {
                assert(rest =~= s.subrange(start as int, n as int));
                assert(lines_of(rest) == seq![rest]);
                assert(lines_of(s.skip(n as int)) =~= Seq::<Seq<char>>::empty());
                assert(texts(out@) =~= texts(before) + seq![rest]);
            }
            start = n;
        } else {
            let stop: usize = if start < end && chars[end - 1] == '\r' {
                end - 1
            } else {
                end
            };
            out.push(contents.substring_char(start, stop).to_owned());
            proof {
                let line = s.subrange(start as int, end as int);
                assert(strip_return(line) =~= s.subrange(start as int, stop as int));
                assert(rest.skip(end - start + 1) =~= s.skip(end as int + 1));
                assert(lines_of(rest) == seq![strip_return(line)] + lines_of(
                    s.skip(end as int + 1),
                ));
                assert(texts(out@) =~= texts(before) + seq![strip_return(line)]);
                assert(texts(out@) + lines_of(s.skip(end as int + 1)) =~= texts(before)
                    + lines_of(rest));
            }
            start = end + 1;
        }
    }
    assert(lines_of(s.skip(n as int)) =~= Seq::<Seq<char>>::empty());
    assert(texts(out@) + Seq::<Seq<char>>::empty() =~= texts(out@));
    out
}

/// Whether a line of a playlist is a comment.
pub fn line_is_comment(line: &str) -> (r: bool)
    ensures
        r == is_comment(line@),
{
    !line.is_empty() && line.get_char(0) == '#'
}

/// The lines of a playlist that name a path: all but the comments, in
/// their order. Empty lines are kept; they name no file that exists.
pub fn playlist_entries(contents: &str) -> (r: Vec<String>)
    ensures
        texts(r@) == lines_of(contents@).filter(entry_filter()),
{
    let lines = playlist_lines(contents);
    let ghost all = texts(lines@);
    let mut out: Vec<String> = Vec::new();
    let mut i: usize = 0;
    assert(all.take(0).filter(entry_filter()) =~= Seq::<Seq<char>>::empty()) by {
        reveal(Seq::filter);
    }
    assert(texts(out@) =~= Seq::<Seq<char>>::empty());
    while i < lines.len()
        invariant
            i <= lines@.len(),
            all == texts(lines@),
            texts(out@) == all.take(i as int).filter(entry_filter()),
        decreases lines@.len() - i,
    {
        let ghost before = out@;
        proof {
            all.lemma_take_succ_push(i as int);
            all.take(i as int).lemma_filter_push(all[i as int], entry_filter());
            assert(all[i as int] == lines@[i as int]@);
        }
        if !line_is_comment(lines[i].as_str()) {
            out.push(lines[i].clone());
            assert(texts(out@) =~= texts(before).push(lines@[i as int]@));
        }
        i += 1;
    }
    assert(all.take(lines@.len() as int) =~= all);
    out
}

/// Judges one entry: `None` where it is a track, else why it is passed
/// over.
pub fn judge_entry(entry: &PlaylistEntry) -> (r: Option<SkipReason>)
    ensures
        r == verdict(*entry),
{
    if !entry.exists {
        Some(SkipReason::Missing)
    } else {
        match file_kind(entry.path.as_str()) {
            FileKind::Audio => None,
            _ => Some(SkipReason::NotAudio),
        }
    }
}

/// Loads a playlist from its entries. An entry whose file exists and is a
/// supported audio file becomes a track; any other is recorded as passed
/// over, with the reason, and the load goes on. Both lists keep the order
/// of the lines.
pub fn parse_playlist(entries: &Vec<PlaylistEntry>) -> (r: PlaylistLoad)
    ensures
        r.tracks@ == entries@.filter(track_filter()).map_values(track_of()),
        r.skipped@ == entries@.filter(skip_filter()).map_values(skipped_of()),
{
    let mut tracks: Vec<String> = Vec::new();
    let mut skipped: Vec<Skipped> = Vec::new();
    let mut i: usize = 0;
    proof {
        reveal(Seq::filter);
        assert(entries@.take(0).filter(track_filter()).map_values(track_of()) =~= tracks@);
        assert(entries@.take(0).filter(skip_filter()).map_values(skipped_of()) =~= skipped@);
    }
    while i < entries.len()
        invariant
            i <= entries@.len(),
            tracks@ == entries@.take(i as int).filter(track_filter()).map_values(track_of()),
            skipped@ == entries@.take(i as int).filter(skip_filter()).map_values(skipped_of()),
        decreases entries@.len() - i,
    {
        let ghost e = entries@[i as int];
        let ghost done = entries@.take(i as int);
        proof {
            entries@.lemma_take_succ_push(i as int);
            done.lemma_filter_push(e, track_filter());
            done.lemma_filter_push(e, skip_filter());
            done.filter(track_filter()).lemma_push_map_commute(track_of(), e);
            done.filter(skip_filter()).lemma_push_map_commute(skipped_of(), e);
        }
        match judge_entry(&entries[i]) {
            None => {
                tracks.push(entries[i].path.clone());
            },
            Some(reason) => {
                skipped.push(Skipped { line: entries[i].path.clone(), reason });
            },
        }
        i += 1;
    }
    assert(entries@.take(entries@.len() as int) =~= entries@);
    PlaylistLoad { tracks, skipped }
}

} // verus!
