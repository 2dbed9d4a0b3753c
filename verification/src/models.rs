//! The catalogue's data: tracks, albums, the library that holds them, and
//! the plain values that the metadata logic reads from an audio file.

use vstd::prelude::*;

verus! {

/// The characters of an optional string.
pub open spec fn opt_text(o: Option<String>) -> Option<Seq<char>> {
    match o {
        Some(s) => Some(s@),
        None => None,
    }
}

/// The bytes of an optional byte buffer.
pub open spec fn opt_bytes(o: Option<Vec<u8>>) -> Option<Seq<u8>> {
    match o {
        Some(v) => Some(v@),
        None => None,
    }
}

/// One audio track of the library.
#[derive(Clone, Debug)]
pub struct Track {
    pub path: String,
    pub album_id: String,
    pub title: String,
    pub artist: String,
    pub artists: Vec<String>,
    pub album: String,
    pub khz: u32,
    pub bitrate: u8,
    pub duration: u64,
    pub track_number: Option<u32>,
    pub disc_number: Option<u32>,
    pub musicbrainz_release_id: Option<String>,
    pub playlist_item_id: Option<String>,
}

/// The mathematical value of a [`Track`].
pub struct TrackView {
    pub path: Seq<char>,
    pub album_id: Seq<char>,
    pub title: Seq<char>,
    pub artist: Seq<char>,
    pub artists: Seq<Seq<char>>,
    pub album: Seq<char>,
    pub khz: u32,
    pub bitrate: u8,
    pub duration: u64,
    pub track_number: Option<u32>,
    pub disc_number: Option<u32>,
    pub musicbrainz_release_id: Option<Seq<char>>,
    pub playlist_item_id: Option<Seq<char>>,
}

impl View for Track {
    type V = TrackView;

    open spec fn view(&self) -> TrackView {
        TrackView {
            path: self.path@,
            album_id: self.album_id@,
            title: self.title@,
            artist: self.artist@,
            artists: self.artists.deep_view(),
            album: self.album@,
            khz: self.khz,
            bitrate: self.bitrate,
            duration: self.duration,
            track_number: self.track_number,
            disc_number: self.disc_number,
            musicbrainz_release_id: opt_text(self.musicbrainz_release_id),
            playlist_item_id: opt_text(self.playlist_item_id),
        }
    }
}

/// One album of the library.
#[derive(Clone, Debug)]
pub struct Album {
    pub id: String,
    pub title: String,
    pub artist: String,
    pub genre: String,
    pub year: u16,
    pub cover_path: Option<String>,
}

/// The mathematical value of an [`Album`].
pub struct AlbumView {
    pub id: Seq<char>,
    pub title: Seq<char>,
    pub artist: Seq<char>,
    pub genre: Seq<char>,
    pub year: u16,
    pub cover_path: Option<Seq<char>>,
}

impl View for Album {
    type V = AlbumView;

    open spec fn view(&self) -> AlbumView {
        AlbumView {
            id: self.id@,
            title: self.title@,
            artist: self.artist@,
            genre: self.genre@,
            year: self.year,
            cover_path: opt_text(self.cover_path),
        }
    }
}

/// The albums and tracks that have been read so far.
#[derive(Clone, Debug)]
pub struct Library {
    pub albums: Vec<Album>,
    pub tracks: Vec<Track>,
}

/// The mathematical value of a [`Library`].
pub struct LibraryView {
    pub albums: Seq<AlbumView>,
    pub tracks: Seq<TrackView>,
}

impl View for Library {
    type V = LibraryView;

    open spec fn view(&self) -> LibraryView {
        LibraryView {
            albums: self.albums@.map_values(|a: Album| a@),
            tracks: self.tracks@.map_values(|t: Track| t@),
        }
    }
}

/// What the metadata logic reads from one tag of an audio file.
#[derive(Clone, Debug)]
pub struct TagInfo {
    pub title: Option<String>,
    pub artist: Option<String>,
    /// Every value stored under the "track artists" key, in tag order.
    pub track_artists: Vec<String>,
    pub album: Option<String>,
    pub album_artist: Option<String>,
    pub genre: Option<String>,
    pub year: Option<u32>,
    pub track: Option<u32>,
    pub disk: Option<u32>,
    pub musicbrainz_release_id: Option<String>,
    /// The data of the first picture that the tag holds.
    pub first_picture: Option<Vec<u8>>,
}

/// The mathematical value of a [`TagInfo`].
pub struct TagView {
    pub title: Option<Seq<char>>,
    pub artist: Option<Seq<char>>,
    pub track_artists: Seq<Seq<char>>,
    pub album: Option<Seq<char>>,
    pub album_artist: Option<Seq<char>>,
    pub genre: Option<Seq<char>>,
    pub year: Option<u32>,
    pub track: Option<u32>,
    pub disk: Option<u32>,
    pub musicbrainz_release_id: Option<Seq<char>>,
    pub first_picture: Option<Seq<u8>>,
}

impl View for TagInfo {
    type V = TagView;

    open spec fn view(&self) -> TagView {
        TagView {
            title: opt_text(self.title),
            artist: opt_text(self.artist),
            track_artists: self.track_artists.deep_view(),
            album: opt_text(self.album),
            album_artist: opt_text(self.album_artist),
            genre: opt_text(self.genre),
            year: self.year,
            track: self.track,
            disk: self.disk,
            musicbrainz_release_id: opt_text(self.musicbrainz_release_id),
            first_picture: opt_bytes(self.first_picture),
        }
    }
}

/// The view of an optional tag.
pub open spec fn opt_tag(tag: Option<&TagInfo>) -> Option<TagView> {
    match tag {
        Some(t) => Some(t@),
        None => None,
    }
}

/// What the metadata logic reads from the audio properties of a file.
#[derive(Clone, Debug)]
pub struct AudioProperties {
    pub sample_rate: Option<u32>,
    pub bit_depth: Option<u8>,
    /// Whole seconds of the play time.
    pub duration_secs: u64,
    /// Nanoseconds of the play time beyond `duration_secs`.
    pub duration_subsec_nanos: u32,
}

} // verus!
