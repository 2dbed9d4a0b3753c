//! Filing tracks and albums into the library.

use vstd::prelude::*;
use crate::metadata::text_or;
use crate::paths::{parent_of, path_parent};
use crate::models::{
    opt_tag, opt_text, Album, AlbumView, Library, LibraryView, TagInfo, TagView, Track, TrackView,
};

verus! {

/// Some album of `albums` has identifier `id`.
pub open spec fn has_album_id(albums: Seq<AlbumView>, id: Seq<char>) -> bool {
    exists|i: int| 0 <= i < albums.len() && albums[i].id == id
}

/// The cover path of the first album of `albums` with identifier `id`, if
/// there is such an album and it has a cover.
pub open spec fn first_album_cover(albums: Seq<AlbumView>, id: Seq<char>) -> Option<Seq<char>>
    decreases albums.len(),
{
    if albums.len() == 0 {
        None
    } else if albums[0].id == id {
        albums[0].cover_path
    } else {
        first_album_cover(albums.drop_first(), id)
    }
}

/// The album entry created for the first track of an album: its artist is
/// the tag's album artist or else the track artist, its genre the tag's
/// genre or else "Unknown", its year the tag's year cut to 16 bits or 0.
pub open spec fn new_album_for(
    track: TrackView,
    tag: Option<TagView>,
    cover: Option<Seq<char>>,
) -> AlbumView {
    AlbumView {
        id: track.album_id,
        title: track.album,
        artist: match tag {
            Some(t) => text_or(t.album_artist, track.artist),
            None => track.artist,
        },
        genre: match tag {
            Some(t) => text_or(t.genre, "Unknown"@),
            None => "Unknown"@,
        },
        year: match tag {
            Some(t) => match t.year {
                Some(y) => (y % 65536) as u16,
                None => 0,
            },
            None => 0,
        },
        cover_path: cover,
    }
}

/// The library after filing `track`: its album is added when no album has
/// its identifier yet, and the track is appended.
pub open spec fn catalogued(
    lib: LibraryView,
    track: TrackView,
    tag: Option<TagView>,
    cover: Option<Seq<char>>,
) -> LibraryView {
    LibraryView {
        albums: if has_album_id(lib.albums, track.album_id) {
            lib.albums
        } else {
            lib.albums.push(new_album_for(track, tag, cover))
        },
        tracks: lib.tracks.push(track),
    }
}

fn clone_text(s: &String) -> (res: String)
    ensures
        res@ == s@,
{
    s.clone()
}

fn clone_opt(o: &Option<String>) -> (res: Option<String>)
    ensures
        opt_text(res) == opt_text(*o),
{
    match o {
        Some(s) => Some(s.clone()),
        None => None,
    }
}

fn same_string(a: &String, b: &String) -> (res: bool)
    ensures
        res == (a@ == b@),
{
    a.eq(b)
}

impl Library {
    /// An empty library.
    pub fn new() -> (res: Library)
        ensures
            res@.albums == Seq::<AlbumView>::empty(),
            res@.tracks == Seq::<TrackView>::empty(),
    {
        let res = Library { albums: Vec::new(), tracks: Vec::new() };
        assert(res@.albums =~= Seq::<AlbumView>::empty());
        assert(res@.tracks =~= Seq::<TrackView>::empty());
        res
    }

    /// Whether some album of the library has identifier `id`.
    pub fn has_album(&self, id: &String) -> (res: bool)
        ensures
            res == has_album_id(self@.albums, id@),
    {
        let mut i: usize = 0;
        while i < self.albums.len()
            invariant
                i <= self.albums.len(),
                forall|k: int| 0 <= k < i ==> self@.albums[k].id != id@,
            decreases self.albums.len() - i,
        {
            if same_string(&self.albums[i].id, id) {
                assert(self@.albums[i as int].id == id@);
                return true;
            }
            i = i + 1;
        }
        false
    }

    /// The cover path of the album with identifier `id`, when the library
    /// holds that album and it has a cover.
    pub fn album_cover(&self, id: &String) -> (res: Option<String>)
        ensures
            opt_text(res) == first_album_cover(self@.albums, id@),
    {
        let ghost all = self@.albums;
        assert(all.subrange(0, all.len() as int) =~= all);
        let mut i: usize = 0;
        while i < self.albums.len()
            invariant
                i <= self.albums.len(),
                all == self@.albums,
                first_album_cover(all, id@) == first_album_cover(all.subrange(i as int, all.len() as int), id@),
            decreases self.albums.len() - i,
        {
            let ghost rest = all.subrange(i as int, all.len() as int);
            assert(rest[0] == self.albums[i as int]@);
            assert(rest.drop_first() =~= all.subrange(i + 1, all.len() as int));
            if same_string(&self.albums[i].id, id) {
                return clone_opt(&self.albums[i].cover_path);
            }
            i = i + 1;
        }
        None
    }

    /// Appends an album.
    pub fn add_album(&mut self, album: Album)
        ensures
            final(self)@.albums == old(self)@.albums.push(album@),
            final(self)@.tracks == old(self)@.tracks,
    {
        self.albums.push(album);
        assert(self@.albums =~= old(self)@.albums.push(album@));
    }

    /// Appends a track.
    pub fn add_track(&mut self, track: Track)
        ensures
            final(self)@.albums == old(self)@.albums,
            final(self)@.tracks == old(self)@.tracks.push(track@),
    {
        self.tracks.push(track);
        assert(self@.tracks =~= old(self)@.tracks.push(track@));
    }

    /// Files `track`, read from a file whose chosen tag is `tag`: when no
    /// album has the track's album identifier, an album entry is added with
    /// cover path `cover`; then the track is appended.
    pub fn catalog_track(&mut self, track: Track, tag: Option<&TagInfo>, cover: Option<String>)
        ensures
            final(self)@ == catalogued(old(self)@, track@, opt_tag(tag), opt_text(cover)),
    {
        if !self.has_album(&track.album_id) {
            let artist: String = match tag {
                Some(t) => match &t.album_artist {
                    Some(a) => clone_text(a),
                    None => clone_text(&track.artist),
                },
                None => clone_text(&track.artist),
            };
            let genre: String = match tag {
                Some(t) => match &t.genre {
                    Some(g) => clone_text(g),
                    None => "Unknown".to_owned(),
                },
                None => "Unknown".to_owned(),
            };
            let year_full: u32 = match tag {
                Some(t) => match t.year {
                    Some(y) => y,
                    None => 0,
                },
                None => 0,
            };
            let year: u16 = (year_full % 65536) as u16;
            let album = Album {
                id: clone_text(&track.album_id),
                title: clone_text(&track.album),
                artist,
                genre,
                year,
                cover_path: cover,
            };
            self.add_album(album);
        }
        self.add_track(track);
    }
}

} // verus!

verus! {

/// Every track of `lib` has its album in `lib`.
pub open spec fn tracks_filed(lib: LibraryView) -> bool {
    forall|i: int| 0 <= i < lib.tracks.len() ==> has_album_id(lib.albums, #[trigger] lib.tracks[i].album_id)
}

/// No two albums of `lib` share an identifier.
pub open spec fn album_ids_unique(lib: LibraryView) -> bool {
    forall|i: int, j: int|
        0 <= i < lib.albums.len() && 0 <= j < lib.albums.len() && i != j ==> #[trigger] lib.albums[i].id
            != #[trigger] lib.albums[j].id
}

/// Filing a track appends it and leaves its album in the library.
pub proof fn law_catalog_files_track(
    lib: LibraryView,
    track: TrackView,
    tag: Option<TagView>,
    cover: Option<Seq<char>>,
)
    ensures
        catalogued(lib, track, tag, cover).tracks == lib.tracks.push(track),
        has_album_id(catalogued(lib, track, tag, cover).albums, track.album_id),
{
    let after = catalogued(lib, track, tag, cover);
    if !has_album_id(lib.albums, track.album_id) {
        assert(after.albums[lib.albums.len() as int].id == track.album_id);
    }
}

/// Filing keeps every track's album in the library.
pub proof fn law_catalog_keeps_tracks_filed(
    lib: LibraryView,
    track: TrackView,
    tag: Option<TagView>,
    cover: Option<Seq<char>>,
)
    requires
        tracks_filed(lib),
    ensures
        tracks_filed(catalogued(lib, track, tag, cover)),
{
    let after = catalogued(lib, track, tag, cover);
    law_catalog_files_track(lib, track, tag, cover);
    assert forall|i: int| 0 <= i < after.tracks.len() implies has_album_id(
        after.albums,
        #[trigger] after.tracks[i].album_id,
    ) by {
        if i < lib.tracks.len() {
            assert(after.tracks[i] == lib.tracks[i]);
            assert(has_album_id(lib.albums, lib.tracks[i].album_id));
            let k = choose|k: int| 0 <= k < lib.albums.len() && lib.albums[k].id == lib.tracks[i].album_id;
            assert(after.albums[k] == lib.albums[k]);
        }
    }
}

/// Filing never gives two albums the same identifier.
pub proof fn law_catalog_keeps_album_ids_unique(
    lib: LibraryView,
    track: TrackView,
    tag: Option<TagView>,
    cover: Option<Seq<char>>,
)
    requires
        album_ids_unique(lib),
    ensures
        album_ids_unique(catalogued(lib, track, tag, cover)),
{
    let after = catalogued(lib, track, tag, cover);
    if !has_album_id(lib.albums, track.album_id) {
        let n = lib.albums.len() as int;
        assert forall|i: int, j: int|
            0 <= i < after.albums.len() && 0 <= j < after.albums.len() && i != j implies #[trigger] after.albums[i].id
                != #[trigger] after.albums[j].id by {
            if i < n && j < n {
                assert(after.albums[i] == lib.albums[i]);
                assert(after.albums[j] == lib.albums[j]);
            } else if i == n {
                assert(after.albums[j] == lib.albums[j]);
            } else {
                assert(after.albums[i] == lib.albums[i]);
            }
        }
    }
}

} // verus!

verus! {

/// Where the cover of a track's album comes from when the track is filed.
pub enum CoverSource {
    /// The album is already in the library: no cover is needed.
    Keep,
    /// The picture embedded in the file, to be stored in the cover cache.
    Embedded(Vec<u8>),
    /// A cover to be looked for in this folder, the file's parent.
    Folder(String),
    /// No embedded picture and no parent folder: the file is not read.
    NoFolder,
}

/// Chooses the cover source, given whether the album is already filed, the
/// embedded picture and the file's parent folder.
pub fn cover_source_from_parent(
    album_exists: bool,
    embedded: Option<Vec<u8>>,
    parent: Option<String>,
) -> (res: CoverSource)
    ensures
        album_exists ==> res is Keep,
        !album_exists && embedded is Some ==> (res matches CoverSource::Embedded(b) && b@
            == embedded->0@),
        !album_exists && embedded is None && parent is Some ==> (res matches CoverSource::Folder(f)
            && f@ == parent->0@),
        !album_exists && embedded is None && parent is None ==> res is NoFolder,
{
    if album_exists {
        return CoverSource::Keep;
    }
    match embedded {
        Some(bytes) => CoverSource::Embedded(bytes),
        None => match parent {
            Some(folder) => CoverSource::Folder(folder),
            None => CoverSource::NoFolder,
        },
    }
}

/// Chooses the cover source for the file at `track_path`: none when its
/// album is already filed, else the embedded picture, else the file's parent
/// folder, else no source at all.
pub fn cover_source(album_exists: bool, embedded: Option<Vec<u8>>, track_path: &str) -> (res: CoverSource)
    ensures
        album_exists ==> res is Keep,
        !album_exists && embedded is Some ==> (res matches CoverSource::Embedded(b) && b@
            == embedded->0@),
        !album_exists && embedded is None && parent_of(track_path@) is Some ==> (res matches CoverSource::Folder(f)
            && f@ == parent_of(track_path@)->0),
        !album_exists && embedded is None && parent_of(track_path@) is None ==> res is NoFolder,
{
    if album_exists || embedded.is_some() {
        cover_source_from_parent(album_exists, embedded, None)
    } else {
        let parent = path_parent(track_path);
        cover_source_from_parent(album_exists, embedded, parent)
    }
}

} // verus!

verus! {

/// The album entry added for a track whose album is new carries the
/// track's album identifier and album name, the tag's album artist (else the
/// track's artist), the tag's genre (else "Unknown", with or without a tag),
/// the tag's year cut to 16 bits (else 0), and the given cover; an album
/// already in the library is left as it is.
pub proof fn law_new_album_entry(
    lib: LibraryView,
    track: TrackView,
    tag: Option<TagView>,
    cover: Option<Seq<char>>,
)
    ensures
        has_album_id(lib.albums, track.album_id) ==> catalogued(lib, track, tag, cover).albums
            == lib.albums,
        !has_album_id(lib.albums, track.album_id) ==> ({
            let after = catalogued(lib, track, tag, cover).albums;
            let added = after[after.len() - 1];
            &&& after.len() == lib.albums.len() + 1
            &&& after.subrange(0, lib.albums.len() as int) == lib.albums
            &&& added.id == track.album_id
            &&& added.title == track.album
            &&& added.cover_path == cover
            &&& (tag is Some && tag->0.album_artist is Some ==> added.artist
                == tag->0.album_artist->0)
            &&& (!(tag is Some && tag->0.album_artist is Some) ==> added.artist == track.artist)
            &&& (tag is Some && tag->0.genre is Some ==> added.genre == tag->0.genre->0)
            &&& (!(tag is Some && tag->0.genre is Some) ==> added.genre == "Unknown"@)
            &&& (tag is Some && tag->0.year is Some ==> added.year as int == tag->0.year->0
                % 65536)
            &&& (!(tag is Some && tag->0.year is Some) ==> added.year == 0)
        }),
{
    if !has_album_id(lib.albums, track.album_id) {
        let after = catalogued(lib, track, tag, cover).albums;
        assert(after.subrange(0, lib.albums.len() as int) =~= lib.albums);
    }
}

} // verus!
