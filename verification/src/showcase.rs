//! Decisions of the album and playlist showcase: which row is playing,
//! where a cover comes from, how long the list plays, which bulk action a
//! button performs.

use vstd::prelude::*;
use crate::models::{opt_text, Track, TrackView};
use crate::queue::{lemma_total_prefix_bounded, total_of};
use crate::paths::{path_eq_of, same_path};
use crate::text::{has_prefix, same_text};

verus! {

/// What the player is playing right now.
pub struct NowPlaying {
    /// Path of the track at the current queue position, if any.
    pub path: Option<String>,
    pub title: String,
    pub artist: String,
    pub album: String,
    pub duration: u64,
}

/// The mathematical value of a [`NowPlaying`].
pub struct NowPlayingView {
    pub path: Option<Seq<char>>,
    pub title: Seq<char>,
    pub artist: Seq<char>,
    pub album: Seq<char>,
    pub duration: u64,
}

impl View for NowPlaying {
    type V = NowPlayingView;

    open spec fn view(&self) -> NowPlayingView {
        NowPlayingView {
            path: opt_text(self.path),
            title: self.title@,
            artist: self.artist@,
            album: self.album@,
            duration: self.duration,
        }
    }
}

/// The row's track is the playing song by its metadata: a title is
/// playing and title, artist, album and play time all agree.
pub open spec fn metadata_plays(track: TrackView, now: NowPlayingView) -> bool {
    now.title.len() > 0 && track.title == now.title && track.artist == now.artist && track.album
        == now.album && track.duration == now.duration
}

/// A row plays when the current track's path equals its path as a `Path`,
/// or when its metadata matches the playing song.
pub open spec fn plays(track: TrackView, now: NowPlayingView) -> bool {
    (match now.path {
        Some(p) => path_eq_of(p, track.path),
        None => false,
    }) || metadata_plays(track, now)
}

/// Whether the row for `track` is marked as playing, given whether the
/// current track's path equals the row's path.
pub fn row_plays(track: &Track, now: &NowPlaying, path_matches: bool) -> (res: bool)
    ensures
        res == (path_matches || metadata_plays(track@, now@)),
{
    let matches_current_metadata = !now.title.as_str().is_empty() && same_text(
        track.title.as_str(),
        now.title.as_str(),
    ) && same_text(track.artist.as_str(), now.artist.as_str()) && same_text(
        track.album.as_str(),
        now.album.as_str(),
    ) && track.duration == now.duration;
    path_matches || matches_current_metadata
}

/// Whether the row for `track` is marked as playing.
pub fn is_now_playing(track: &Track, now: &NowPlaying) -> (res: bool)
    ensures
        res == plays(track@, now@),
{
    let matches_current_path = match &now.path {
        Some(p) => same_path(p.as_str(), track.path.as_str()),
        None => false,
    };
    row_plays(track, now, matches_current_path)
}

/// Whether a track path names a track of a Jellyfin server.
pub fn is_jellyfin_path(path: &str) -> (res: bool)
    ensures
        res == has_prefix(path@, "jellyfin:"@),
{
    let prefix = "jellyfin:";
    let m = prefix.unicode_len();
    let n = path.unicode_len();
    if m > n {
        return false;
    }
    let head = path.substring_char(0, m);
    same_text(head, prefix)
}

/// The play time of a list of tracks in whole minutes.
pub fn total_minutes(durations: &Vec<u64>) -> (res: u64)
    requires
        total_of(durations@) <= u64::MAX,
    ensures
        res == total_of(durations@) / 60,
{
    let mut total: u64 = 0;
    let mut i: usize = 0;
    while i < durations.len()
        invariant
            i <= durations.len(),
            total_of(durations@) <= u64::MAX,
            total == total_of(durations@.subrange(0, i as int)),
        decreases durations.len() - i,
    {
        proof {
            let pre = durations@.subrange(0, i + 1);
            assert(pre.drop_last() =~= durations@.subrange(0, i as int));
            lemma_total_prefix_bounded(durations@, i + 1);
        }
        total = total + durations[i];
        i = i + 1;
    }
    assert(durations@.subrange(0, durations.len() as int) =~= durations@);
    total / 60
}

/// What the bulk button of a list does.
#[derive(PartialEq, Eq, Structural, Debug, Clone, Copy)]
pub enum BulkAction {
    Delete,
    Download,
}

/// The action of the bulk button: deleting when the list can be deleted,
/// else downloading when it can be downloaded; no button otherwise.
pub fn bulk_action(can_delete: bool, can_download: bool) -> (res: Option<BulkAction>)
    ensures
        res == (if can_delete {
            Some(BulkAction::Delete)
        } else if can_download {
            Some(BulkAction::Download)
        } else {
            None
        }),
{
    if can_delete {
        Some(BulkAction::Delete)
    } else if can_download {
        Some(BulkAction::Download)
    } else {
        None
    }
}

/// A row whose path equals the current track's path as a `Path` is marked
/// as playing, whatever its other fields hold.
pub proof fn law_current_path_plays(track: TrackView, now: NowPlayingView)
    requires
        now.path is Some,
        path_eq_of(now.path->0, track.path),
    ensures
        plays(track, now),
{
}

} // verus!
