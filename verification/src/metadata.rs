//! Album identifiers and track records built from the metadata of an
//! audio file.

use vstd::prelude::*;
use crate::charclass::{
    all_ascii, ascii_lower_char, ascii_lowercase, ascii_upper_char, ascii_uppercase, is_alphanumeric,
    is_alphanumeric_char, lowercase_of, push_char, to_lowercase,
};
use crate::text::{trim_front, trim_text, trimmed};
use crate::models::{opt_bytes, opt_tag, opt_text, AudioProperties, TagInfo, TagView, Track, TrackView};
use crate::paths::{file_stem_of, parent_of, path_file_stem, path_parent};

verus! {

/// What one character of a lowercased album key turns into: a space becomes
/// `_`, alphanumeric characters and `_` stay, everything else is dropped.
pub open spec fn slug_char(c: char) -> Seq<char> {
    if c == ' ' {
        seq!['_']
    } else if is_alphanumeric_char(c) || c == '_' {
        seq![c]
    } else {
        Seq::empty()
    }
}

/// `s` with spaces replaced by `_` and every other character that is not
/// alphanumeric or `_` removed.
pub open spec fn slug_of(s: Seq<char>) -> Seq<char>
    decreases s.len(),
{
    if s.len() == 0 {
        Seq::empty()
    } else {
        slug_of(s.drop_last()) + slug_char(s.last())
    }
}

/// The key under which an album name or grouping key is filed.
pub open spec fn album_key_slug(value: Seq<char>) -> Seq<char> {
    slug_of(lowercase_of(value))
}

/// The identifier of the album named `album`, falling back on the grouping
/// key when the album has no name.
pub open spec fn album_id_for(album: Seq<char>, grouping_key: Seq<char>) -> Seq<char> {
    let name = trimmed(album);
    if name.len() > 0 {
        "alb_"@ + album_key_slug(name)
    } else {
        let fallback = album_key_slug(grouping_key);
        if fallback.len() == 0 {
            "alb_unknown"@
        } else {
            "alb_unknown_"@ + fallback
        }
    }
}

/// Turns an already lowercased album key into its slug.
pub fn slug_from_lowercase(lower: &str) -> (res: String)
    ensures
        res@ == slug_of(lower@),
{
    let n = lower.unicode_len();
    let mut res = String::new();
    let mut i: usize = 0;
    while i < n
        invariant
            n == lower@.len(),
            i <= n,
            res@ == slug_of(lower@.subrange(0, i as int)),
        decreases n - i,
    {
        let c = lower.get_char(i);
        let ghost before = res@;
        if c == ' ' {
            push_char(&mut res, '_');
        } else if is_alphanumeric(c) || c == '_' {
            push_char(&mut res, c);
        }
        proof {
            let next = lower@.subrange(0, i + 1);
            assert(next.drop_last() =~= lower@.subrange(0, i as int));
            assert(next.last() == c);
            assert(res@ =~= before + slug_char(c));
        }
        i = i + 1;
    }
    assert(lower@.subrange(0, n as int) =~= lower@);
    res
}

/// The slug of an album name or grouping key: lowercased, spaces turned
/// into `_`, and everything but alphanumeric characters and `_` removed.
pub fn slugify_album_key(value: &str) -> (res: String)
    ensures
        res@ == album_key_slug(value@),
{
    let lower = to_lowercase(value);
    slug_from_lowercase(lower.as_str())
}

fn append_text(s: &mut String, t: &str)
    ensures
        final(s)@ == old(s)@ + t@,
{
    s.append(t);
}

/// The identifier of an album: `alb_` and the slug of its trimmed name; for
/// an album without a name, `alb_unknown_` and the slug of the grouping key,
/// or `alb_unknown` when that slug is empty.
pub fn make_album_id(album: &str, grouping_key: &str) -> (res: String)
    ensures
        res@ == album_id_for(album@, grouping_key@),
{
    let normalized_album = trim_text(album);
    if !normalized_album.is_empty() {
        let mut id = String::new();
        append_text(&mut id, "alb_");
        let slug = slugify_album_key(normalized_album);
        append_text(&mut id, slug.as_str());
        return id;
    }
    let fallback = slugify_album_key(grouping_key);
    let mut id = String::new();
    if fallback.as_str().is_empty() {
        append_text(&mut id, "alb_unknown");
    } else {
        append_text(&mut id, "alb_unknown_");
        append_text(&mut id, fallback.as_str());
    }
    id
}

} // verus!

verus! {

/// The pieces of `s` between occurrences of `sep`, as `str::split` yields
/// them (the empty string gives one empty piece).
pub open spec fn pieces(s: Seq<char>, sep: char) -> Seq<Seq<char>>
    decreases s.len(),
{
    if s.len() == 0 {
        seq![Seq::empty()]
    } else {
        let p = pieces(s.drop_last(), sep);
        if s.last() == sep {
            p.push(Seq::empty())
        } else {
            p.update(p.len() - 1, p.last().push(s.last()))
        }
    }
}

/// The trimmed pieces that are not empty, in order.
pub open spec fn kept_names(ps: Seq<Seq<char>>) -> Seq<Seq<char>>
    decreases ps.len(),
{
    if ps.len() == 0 {
        Seq::empty()
    } else {
        let rest = kept_names(ps.drop_last());
        let t = trimmed(ps.last());
        if t.len() > 0 {
            rest.push(t)
        } else {
            rest
        }
    }
}

/// The names in a `;`-separated list, trimmed, empty ones left out.
pub open spec fn split_names_spec(s: Seq<char>) -> Seq<Seq<char>> {
    kept_names(pieces(s, ';'))
}

/// The names of every list in `raws`, one list after the other.
pub open spec fn split_names_all(raws: Seq<Seq<char>>) -> Seq<Seq<char>>
    decreases raws.len(),
{
    if raws.len() == 0 {
        Seq::empty()
    } else {
        split_names_all(raws.drop_last()) + split_names_spec(raws.last())
    }
}

fn push_name(out: &mut Vec<String>, piece: &str)
    ensures
        final(out).deep_view() == ({
            let t = trimmed(piece@);
            if t.len() > 0 {
                old(out).deep_view().push(t)
            } else {
                old(out).deep_view()
            }
        }),
{
    let t = trim_text(piece);
    if !t.is_empty() {
        let ghost before = out.deep_view();
        out.push(t.to_owned());
        assert(out.deep_view() =~= before.push(t@));
    }
}

/// Splits a `;`-separated list of names, trims each and leaves out the
/// empty ones.
pub fn split_names(s: &str) -> (res: Vec<String>)
    ensures
        res.deep_view() == split_names_spec(s@),
{
    let n = s.unicode_len();
    let mut out: Vec<String> = Vec::new();
    let mut start: usize = 0;
    let mut i: usize = 0;
    let ghost mut done: Seq<Seq<char>> = Seq::empty();
    proof {
        assert(s@.subrange(0, 0) =~= Seq::<char>::empty());
        assert(pieces(Seq::<char>::empty(), ';') =~= done.push(s@.subrange(0, 0)));
        assert(out.deep_view() =~= kept_names(done));
    }
    while i < n
        invariant
            n == s@.len(),
            start <= i <= n,
            pieces(s@.subrange(0, i as int), ';') == done.push(s@.subrange(start as int, i as int)),
            out.deep_view() == kept_names(done),
        decreases n - i,
    {
        let c = s.get_char(i);
        let ghost prefix = s@.subrange(0, i + 1);
        assert(prefix.drop_last() =~= s@.subrange(0, i as int));
        assert(prefix.last() == c);
        if c == ';' {
            let piece = s.substring_char(start, i);
            push_name(&mut out, piece);
            proof {
                let d2 = done.push(s@.subrange(start as int, i as int));
                assert(d2.drop_last() =~= done);
                assert(d2.last() == piece@);
                done = d2;
                assert(s@.subrange(i + 1, i + 1) =~= Seq::<char>::empty());
            }
            start = i + 1;
        } else {
            proof {
                let p = done.push(s@.subrange(start as int, i as int));
                assert(p.last().push(c) =~= s@.subrange(start as int, i + 1));
                assert(p.update(p.len() - 1, p.last().push(c)) =~= done.push(
                    s@.subrange(start as int, i + 1),
                ));
            }
        }
        i = i + 1;
    }
    let piece = s.substring_char(start, n);
    push_name(&mut out, piece);
    proof {
        assert(s@.subrange(0, n as int) =~= s@);
        let d2 = done.push(s@.subrange(start as int, n as int));
        assert(d2.drop_last() =~= done);
    }
    out
}

/// Whether `c` occurs in `s`.
pub fn has_char(s: &str, c: char) -> (res: bool)
    ensures
        res == s@.contains(c),
{
    let n = s.unicode_len();
    let mut i: usize = 0;
    while i < n
        invariant
            n == s@.len(),
            i <= n,
            forall|k: int| 0 <= k < i ==> s@[k] != c,
        decreases n - i,
    {
        if s.get_char(i) == c {
            assert(s@[i as int] == c);
            return true;
        }
        i = i + 1;
    }
    false
}

} // verus!

verus! {

/// The text of `o`, or `default` when there is none.
pub open spec fn text_or(o: Option<Seq<char>>, default: Seq<char>) -> Seq<char> {
    match o {
        Some(s) => s,
        None => default,
    }
}

/// A field of the tag, when there is a tag.
pub open spec fn tag_text(tag: Option<TagView>, field: spec_fn(TagView) -> Option<Seq<char>>) -> Option<Seq<char>> {
    match tag {
        Some(t) => field(t),
        None => None,
    }
}

/// The track's artist: the tag's artist, else "Unknown Artist".
pub open spec fn track_artist(tag: Option<TagView>) -> Seq<char> {
    text_or(tag_text(tag, |t: TagView| t.artist), "Unknown Artist"@)
}

/// The track's artists: the names under the tag's "track artists" key;
/// failing those, the `;`-separated names of the artist; failing a `;`, the
/// artist alone. Without a tag, the artist alone.
pub open spec fn track_artists(tag: Option<TagView>, artist: Seq<char>) -> Seq<Seq<char>> {
    match tag {
        Some(t) => {
            let from_tag = split_names_all(t.track_artists);
            if from_tag.len() > 0 {
                from_tag
            } else if artist.contains(';') {
                split_names_spec(artist)
            } else {
                seq![artist]
            }
        },
        None => seq![artist],
    }
}

/// The key that groups a track without album name: the album artist, else
/// the parent directory, else the artist.
pub open spec fn grouping_key(
    tag: Option<TagView>,
    parent: Option<Seq<char>>,
    artist: Seq<char>,
) -> Seq<char> {
    match tag_text(tag, |t: TagView| t.album_artist) {
        Some(a) => a,
        None => text_or(parent, artist),
    }
}

/// Play time in whole seconds, a started second counting as a full one.
pub open spec fn rounded_up_secs(props: AudioProperties) -> int {
    props.duration_secs + if props.duration_subsec_nanos > 0 { 1int } else { 0int }
}

/// The track record for a file with optional tag `tag`, audio properties
/// `props` and path `path`, whose parent directory and file stem are
/// `parent` and `stem`.
pub open spec fn track_from_parts(
    tag: Option<TagView>,
    props: AudioProperties,
    path: Seq<char>,
    parent: Option<Seq<char>>,
    stem: Option<Seq<char>>,
) -> TrackView {
    let artist = track_artist(tag);
    let album_title = tag_text(tag, |t: TagView| t.album);
    TrackView {
        path: path,
        album_id: album_id_for(text_or(album_title, Seq::empty()), grouping_key(tag, parent, artist)),
        title: match tag_text(tag, |t: TagView| t.title) {
            Some(t) => t,
            None => text_or(stem, "Unknown Title"@),
        },
        artist: artist,
        artists: track_artists(tag, artist),
        album: text_or(album_title, "Unknown Album"@),
        khz: match props.sample_rate {
            Some(r) => r,
            None => 0,
        },
        bitrate: match props.bit_depth {
            Some(b) => b,
            None => 0,
        },
        duration: rounded_up_secs(props) as u64,
        track_number: match tag {
            Some(t) => t.track,
            None => None,
        },
        disc_number: match tag {
            Some(t) => t.disk,
            None => None,
        },
        musicbrainz_release_id: tag_text(tag, |t: TagView| t.musicbrainz_release_id),
        playlist_item_id: None,
    }
}

fn clone_opt_text(o: &Option<String>) -> (res: Option<String>)
    ensures
        opt_text(res) == opt_text(*o),
{
    match o {
        Some(s) => Some(s.clone()),
        None => None,
    }
}

fn text_of(s: &str) -> (res: String)
    ensures
        res@ == s@,
{
    s.to_owned()
}

/// The artists of a track, from its tag and its artist.
fn artists_from(tag: Option<&TagInfo>, artist: &String) -> (res: Vec<String>)
    ensures
        res.deep_view() == track_artists(opt_tag(tag), artist@),
{
    match tag {
        None => {
            let mut v: Vec<String> = Vec::new();
            v.push(artist.clone());
            assert(v.deep_view() =~= seq![artist@]);
            v
        },
        Some(t) => {
            let raws = &t.track_artists;
            let mut from_tag: Vec<String> = Vec::new();
            let mut i: usize = 0;
            while i < raws.len()
                invariant
                    i <= raws.len(),
                    from_tag.deep_view() == split_names_all(raws.deep_view().subrange(0, i as int)),
                decreases raws.len() - i,
            {
                let mut names = split_names(raws[i].as_str());
                let ghost before = from_tag.deep_view();
                let ghost more = names.deep_view();
                from_tag.append(&mut names);
                proof {
                    let pre = raws.deep_view().subrange(0, i + 1);
                    assert(pre.drop_last() =~= raws.deep_view().subrange(0, i as int));
                    assert(pre.last() == raws[i as int]@);
                    assert(from_tag.deep_view() =~= before + more);
                }
                i = i + 1;
            }
            assert(raws.deep_view().subrange(0, raws.len() as int) =~= raws.deep_view());
            if from_tag.len() > 0 {
                from_tag
            } else if has_char(artist.as_str(), ';') {
                split_names(artist.as_str())
            } else {
                let mut v: Vec<String> = Vec::new();
                v.push(artist.clone());
                assert(v.deep_view() =~= seq![artist@]);
                v
            }
        },
    }
}

/// Builds the track record from the tag, the audio properties and the path
/// of a file, given the path's parent directory and file stem.
pub fn assemble_track(
    tag: Option<&TagInfo>,
    properties: &AudioProperties,
    track_path: &str,
    parent: Option<String>,
    stem: Option<String>,
) -> (res: Track)
    requires
        rounded_up_secs(*properties) <= u64::MAX,
    ensures
        res@ == track_from_parts(opt_tag(tag), *properties, track_path@, opt_text(parent), opt_text(stem)),
{
    let artist: String = match tag {
        Some(t) => match &t.artist {
            Some(a) => a.clone(),
            None => text_of("Unknown Artist"),
        },
        None => text_of("Unknown Artist"),
    };
    let artists = artists_from(tag, &artist);
    let album_title: Option<String> = match tag {
        Some(t) => clone_opt_text(&t.album),
        None => None,
    };
    let album_artist: Option<String> = match tag {
        Some(t) => clone_opt_text(&t.album_artist),
        None => None,
    };
    let grouping: String = match album_artist {
        Some(a) => a,
        None => match parent {
            Some(p) => p,
            None => artist.clone(),
        },
    };
    let title: String = match tag {
        Some(t) => match &t.title {
            Some(x) => x.clone(),
            None => match stem {
                Some(s) => s,
                None => text_of("Unknown Title"),
            },
        },
        None => match stem {
            Some(s) => s,
            None => text_of("Unknown Title"),
        },
    };
    let musicbrainz_release_id: Option<String> = match tag {
        Some(t) => clone_opt_text(&t.musicbrainz_release_id),
        None => None,
    };
    let album_id = match &album_title {
        Some(a) => make_album_id(a.as_str(), grouping.as_str()),
        None => make_album_id("", grouping.as_str()),
    };
    proof {
        reveal_strlit("");
    }
    let album: String = match album_title {
        Some(a) => a,
        None => text_of("Unknown Album"),
    };
    let khz: u32 = match properties.sample_rate {
        Some(r) => r,
        None => 0,
    };
    let bitrate: u8 = match properties.bit_depth {
        Some(b) => b,
        None => 0,
    };
    let extra: u64 = if properties.duration_subsec_nanos > 0 { 1 } else { 0 };
    let duration: u64 = properties.duration_secs + extra;
    let (track_number, disc_number) = match tag {
        Some(t) => (t.track, t.disk),
        None => (None, None),
    };
    let res = Track {
        path: text_of(track_path),
        album_id,
        title,
        artist,
        artists,
        album,
        khz,
        bitrate,
        duration,
        track_number,
        disc_number,
        musicbrainz_release_id,
        playlist_item_id: None,
    };
    res
}

/// Builds the track record of a file from its tag, its audio properties and
/// its path.
pub fn extract_metadata(tag: Option<&TagInfo>, properties: &AudioProperties, track_path: &str) -> (res: Track)
    requires
        rounded_up_secs(*properties) <= u64::MAX,
    ensures
        res@ == track_from_parts(
            opt_tag(tag),
            *properties,
            track_path@,
            parent_of(track_path@),
            file_stem_of(track_path@),
        ),
{
    let parent = path_parent(track_path);
    let has_title = match tag {
        Some(t) => t.title.is_some(),
        None => false,
    };
    let stem = if has_title { None } else { path_file_stem(track_path) };
    assemble_track(tag, properties, track_path, parent, stem)
}

} // verus!

verus! {

/// The first picture among `tags`, taking the tags in order.
pub open spec fn first_picture_among(tags: Seq<TagView>) -> Option<Seq<u8>>
    decreases tags.len(),
{
    if tags.len() == 0 {
        None
    } else {
        match tags[0].first_picture {
            Some(p) => Some(p),
            None => first_picture_among(tags.drop_first()),
        }
    }
}

/// The embedded cover: the first picture of the chosen tag, else the first
/// picture of any tag of the file.
pub open spec fn embedded_cover(all_tags: Seq<TagView>, tag: Option<TagView>) -> Option<Seq<u8>> {
    match tag {
        Some(t) => match t.first_picture {
            Some(p) => Some(p),
            None => first_picture_among(all_tags),
        },
        None => first_picture_among(all_tags),
    }
}

fn copy_bytes(v: &Vec<u8>) -> (res: Vec<u8>)
    ensures
        res@ == v@,
{
    let mut out: Vec<u8> = Vec::new();
    let mut i: usize = 0;
    while i < v.len()
        invariant
            i <= v.len(),
            out@ == v@.subrange(0, i as int),
        decreases v.len() - i,
    {
        out.push(v[i]);
        assert(out@ =~= v@.subrange(0, i + 1));
        i = i + 1;
    }
    assert(v@.subrange(0, v.len() as int) =~= v@);
    out
}

/// The data of the cover picture embedded in a file whose tags are
/// `all_tags` and whose chosen tag is `tag`.
pub fn extract_embedded_cover(all_tags: &Vec<TagInfo>, tag: Option<&TagInfo>) -> (res: Option<Vec<u8>>)
    ensures
        opt_bytes(res) == embedded_cover(all_tags@.map_values(|t: TagInfo| t@), opt_tag(tag)),
{
    if let Some(t) = tag {
        if let Some(p) = &t.first_picture {
            return Some(copy_bytes(p));
        }
    }
    let ghost views = all_tags@.map_values(|t: TagInfo| t@);
    assert(views.subrange(0, views.len() as int) =~= views);
    let mut i: usize = 0;
    while i < all_tags.len()
        invariant
            i <= all_tags.len(),
            views == all_tags@.map_values(|t: TagInfo| t@),
            embedded_cover(views, opt_tag(tag)) == first_picture_among(views),
            first_picture_among(views) == first_picture_among(views.subrange(i as int, views.len() as int)),
        decreases all_tags.len() - i,
    {
        let ghost rest = views.subrange(i as int, views.len() as int);
        assert(rest[0] == all_tags[i as int]@);
        assert(rest.drop_first() =~= views.subrange(i + 1, views.len() as int));
        if let Some(p) = &all_tags[i].first_picture {
            assert(rest[0].first_picture == Some(p@));
            return Some(copy_bytes(p));
        }
        i = i + 1;
    }
    assert(views.subrange(i as int, views.len() as int) =~= Seq::<TagView>::empty());
    None
}

} // verus!

verus! {

/// Every album identifier starts with `alb_`.
pub proof fn law_album_id_prefix(album: Seq<char>, grouping_key: Seq<char>)
    ensures
        crate::text::has_prefix(album_id_for(album, grouping_key), "alb_"@),
{
    reveal_strlit("alb_");
    reveal_strlit("alb_unknown");
    reveal_strlit("alb_unknown_");
    assert(album_id_for(album, grouping_key).subrange(0, 4) =~= "alb_"@);
}

/// A slug holds only `_` and alphanumeric characters.
pub proof fn law_slug_charset(s: Seq<char>)
    ensures
        forall|i: int|
            0 <= i < slug_of(s).len() ==> slug_of(s)[i] == '_' || is_alphanumeric_char(
                #[trigger] slug_of(s)[i],
            ),
    decreases s.len(),
{
    if s.len() > 0 {
        law_slug_charset(s.drop_last());
        let rest = slug_of(s.drop_last());
        let tail = slug_char(s.last());
        assert forall|i: int| 0 <= i < slug_of(s).len() implies slug_of(s)[i] == '_'
            || is_alphanumeric_char(#[trigger] slug_of(s)[i]) by {
            if i < rest.len() {
                assert(slug_of(s)[i] == rest[i]);
            } else {
                assert(slug_of(s)[i] == tail[i - rest.len()]);
            }
        }
    }
}

/// Album names that agree once trimmed, and are not blank, give the same
/// identifier whatever the grouping keys.
pub proof fn law_album_id_ignores_surrounding_space(
    album1: Seq<char>,
    key1: Seq<char>,
    album2: Seq<char>,
    key2: Seq<char>,
)
    requires
        trimmed(album1) == trimmed(album2),
        trimmed(album1).len() > 0,
    ensures
        album_id_for(album1, key1) == album_id_for(album2, key2),
{
}

/// The names split from a list are never empty.
pub proof fn law_split_names_not_empty(ps: Seq<Seq<char>>)
    ensures
        forall|i: int| 0 <= i < kept_names(ps).len() ==> #[trigger] kept_names(ps)[i].len() > 0,
    decreases ps.len(),
{
    if ps.len() > 0 {
        law_split_names_not_empty(ps.drop_last());
        let rest = kept_names(ps.drop_last());
        assert forall|i: int| 0 <= i < kept_names(ps).len() implies #[trigger] kept_names(ps)[i].len() > 0 by {
            if i < rest.len() {
                assert(kept_names(ps)[i] == rest[i]);
            }
        }
    }
}

} // verus!

verus! {

/// An album named by an already trimmed name gets the same identifier.
pub proof fn law_album_id_of_trimmed_name(album: Seq<char>, grouping_key: Seq<char>)
    ensures
        album_id_for(trimmed(album), grouping_key) == album_id_for(album, grouping_key),
{
    crate::text::law_trim_idempotent(album);
}

/// Album identifiers depend on a non-blank name only through the lowercase
/// form of the trimmed name.
pub proof fn law_album_id_follows_lowercase(
    album1: Seq<char>,
    key1: Seq<char>,
    album2: Seq<char>,
    key2: Seq<char>,
)
    requires
        trimmed(album1).len() > 0,
        trimmed(album2).len() > 0,
        lowercase_of(trimmed(album1)) == lowercase_of(trimmed(album2)),
    ensures
        album_id_for(album1, key1) == album_id_for(album2, key2),
{
}

/// Every character of `s` passes through the slug unchanged.
pub open spec fn slug_stable(s: Seq<char>) -> bool {
    forall|i: int| 0 <= i < s.len() ==> (s[i] == '_' || (s[i] != ' ' && is_alphanumeric_char(#[trigger] s[i])))
}

proof fn lemma_slug_of_stable(s: Seq<char>)
    requires
        slug_stable(s),
    ensures
        slug_of(s) == s,
    decreases s.len(),
{
    if s.len() > 0 {
        let d = s.drop_last();
        assert forall|i: int| 0 <= i < d.len() implies (d[i] == '_' || (d[i] != ' ' && is_alphanumeric_char(#[trigger] d[i]))) by {
            assert(d[i] == s[i]);
        }
        lemma_slug_of_stable(d);
        assert(s.last() == s[s.len() - 1]);
        assert(slug_char(s.last()) =~= seq![s.last()]);
        assert(d.push(s.last()) =~= s);
    }
}

proof fn lemma_slug_output_stable(s: Seq<char>)
    ensures
        slug_stable(slug_of(s)),
    decreases s.len(),
{
    if s.len() > 0 {
        lemma_slug_output_stable(s.drop_last());
        let rest = slug_of(s.drop_last());
        let tail = slug_char(s.last());
        assert forall|i: int| 0 <= i < slug_of(s).len() implies (slug_of(s)[i] == '_' || (slug_of(s)[i] != ' '
            && is_alphanumeric_char(#[trigger] slug_of(s)[i]))) by {
            if i < rest.len() {
                assert(slug_of(s)[i] == rest[i]);
            } else {
                assert(slug_of(s)[i] == tail[i - rest.len()]);
            }
        }
    }
}

/// Slugging a slug changes nothing.
pub proof fn law_slug_idempotent(s: Seq<char>)
    ensures
        slug_of(slug_of(s)) == slug_of(s),
{
    lemma_slug_output_stable(s);
    lemma_slug_of_stable(slug_of(s));
}

/// A slug that lowercasing leaves as it is slugs to itself.
pub proof fn law_album_key_slug_fixed(value: Seq<char>)
    requires
        lowercase_of(album_key_slug(value)) == album_key_slug(value),
    ensures
        album_key_slug(album_key_slug(value)) == album_key_slug(value),
{
    law_slug_idempotent(lowercase_of(value));
}

} // verus!

verus! {

proof fn lemma_lower_upper_char(c: char)
    ensures
        ascii_lower_char(ascii_upper_char(c)) == ascii_lower_char(c),
        ascii_upper_char(c) <= '\u{7f}' <==> c <= '\u{7f}',
{
}

/// For ASCII album names, upper and lower case give the same identifier.
pub proof fn law_album_id_ignores_ascii_case(album: Seq<char>, grouping_key: Seq<char>)
    requires
        all_ascii(album),
    ensures
        album_id_for(ascii_uppercase(album), grouping_key) == album_id_for(album, grouping_key),
{
    let t = trimmed(album);
    crate::text::lemma_trim_front_upper(album);
    crate::text::lemma_trim_back_upper(trim_front(album));
    let tu = trimmed(ascii_uppercase(album));
    assert(tu == ascii_uppercase(t));
    crate::text::lemma_trimmed_ascii(album);
    assert forall|i: int| 0 <= i < tu.len() implies #[trigger] tu[i] <= '\u{7f}' by {
        lemma_lower_upper_char(t[i]);
    }
    assert forall|i: int| 0 <= i < t.len() implies ascii_lowercase(tu)[i] == #[trigger] ascii_lowercase(t)[i] by {
        lemma_lower_upper_char(t[i]);
    }
    assert(ascii_lowercase(tu) =~= ascii_lowercase(t));
}

/// Characters that are ASCII and not uppercase letters.
pub open spec fn lower_ascii(s: Seq<char>) -> bool {
    forall|i: int| 0 <= i < s.len() ==> #[trigger] s[i] <= '\u{7f}' && !('A' <= s[i] && s[i] <= 'Z')
}

proof fn lemma_slug_keeps_lower_ascii(s: Seq<char>)
    requires
        lower_ascii(s),
    ensures
        lower_ascii(slug_of(s)),
    decreases s.len(),
{
    if s.len() > 0 {
        let d = s.drop_last();
        assert forall|i: int| 0 <= i < d.len() implies #[trigger] d[i] <= '\u{7f}' && !('A' <= d[i] && d[i] <= 'Z') by {
            assert(d[i] == s[i]);
        }
        lemma_slug_keeps_lower_ascii(d);
        let rest = slug_of(d);
        let tail = slug_char(s.last());
        assert(s.last() == s[s.len() - 1]);
        assert forall|i: int| 0 <= i < slug_of(s).len() implies #[trigger] slug_of(s)[i] <= '\u{7f}'
            && !('A' <= slug_of(s)[i] && slug_of(s)[i] <= 'Z') by {
            if i < rest.len() {
                assert(slug_of(s)[i] == rest[i]);
            } else {
                assert(slug_of(s)[i] == tail[i - rest.len()]);
            }
        }
    }
}

/// For an ASCII value, slugifying its slug gives the slug back.
pub proof fn law_slugify_ascii_idempotent(value: Seq<char>)
    requires
        all_ascii(value),
    ensures
        album_key_slug(album_key_slug(value)) == album_key_slug(value),
{
    let l = ascii_lowercase(value);
    assert forall|i: int| 0 <= i < l.len() implies #[trigger] l[i] <= '\u{7f}' && !('A' <= l[i] && l[i] <= 'Z') by {
        assert(value[i] <= '\u{7f}');
    }
    lemma_slug_keeps_lower_ascii(l);
    let r = slug_of(l);
    assert(r == album_key_slug(value));
    assert(all_ascii(r));
    assert(ascii_lowercase(r) =~= r);
    law_album_key_slug_fixed(value);
}

} // verus!

verus! {

/// Whether the slug keeps some trace of `c`: a space, `_` or an
/// alphanumeric character.
pub open spec fn slug_keeps(c: char) -> bool {
    c == ' ' || c == '_' || is_alphanumeric_char(c)
}

/// How many characters of `s` the slug keeps a trace of.
pub open spec fn kept_count(s: Seq<char>) -> nat
    decreases s.len(),
{
    if s.len() == 0 {
        0
    } else {
        kept_count(s.drop_last()) + if slug_keeps(s.last()) {
            1nat
        } else {
            0nat
        }
    }
}

/// The slug of a concatenation is the concatenation of the slugs.
pub proof fn law_slug_concat(a: Seq<char>, b: Seq<char>)
    ensures
        slug_of(a + b) == slug_of(a) + slug_of(b),
    decreases b.len(),
{
    if b.len() == 0 {
        assert(a + b =~= a);
        assert(slug_of(a) + slug_of(b) =~= slug_of(a));
    } else {
        law_slug_concat(a, b.drop_last());
        assert((a + b).drop_last() =~= a + b.drop_last());
        assert((a + b).last() == b.last());
        assert(slug_of(a + b) =~= slug_of(a) + slug_of(b));
    }
}

/// The slug has one character for each space, `_` and alphanumeric
/// character of the key, and none for any other character.
pub proof fn law_slug_length(s: Seq<char>)
    ensures
        slug_of(s).len() == kept_count(s),
    decreases s.len(),
{
    if s.len() > 0 {
        law_slug_length(s.drop_last());
    }
}

/// The slug is the key with each space turned into `_`, keeping only `_`
/// and alphanumeric characters, in order.
pub proof fn law_slug_is_filtered_key(s: Seq<char>)
    ensures
        slug_of(s) == s.map_values(|c: char| if c == ' ' { '_' } else { c }).filter(
            |c: char| c == '_' || is_alphanumeric_char(c),
        ),
    decreases s.len(),
{
    reveal_with_fuel(Seq::<char>::filter, 1);
    let f = |c: char| if c == ' ' { '_' } else { c };
    let keep = |c: char| c == '_' || is_alphanumeric_char(c);
    let m = s.map_values(f);
    if s.len() == 0 {
        assert(m =~= Seq::<char>::empty());
    } else {
        law_slug_is_filtered_key(s.drop_last());
        assert(m.drop_last() =~= s.drop_last().map_values(f));
        assert(m.last() == f(s.last()));
        if keep(m.last()) {
            assert(slug_of(s) =~= m.drop_last().filter(keep).push(m.last()));
        } else {
            assert(slug_of(s) =~= m.drop_last().filter(keep));
        }
    }
}

/// `ps` joined with `sep` between neighbours.
pub open spec fn joined(ps: Seq<Seq<char>>, sep: char) -> Seq<char>
    decreases ps.len(),
{
    if ps.len() == 0 {
        Seq::empty()
    } else if ps.len() == 1 {
        ps[0]
    } else {
        joined(ps.drop_last(), sep) + seq![sep] + ps.last()
    }
}

proof fn lemma_pieces_not_empty(s: Seq<char>, sep: char)
    ensures
        pieces(s, sep).len() >= 1,
    decreases s.len(),
{
    if s.len() > 0 {
        lemma_pieces_not_empty(s.drop_last(), sep);
    }
}

proof fn lemma_joined_extend_last(ps: Seq<Seq<char>>, sep: char, c: char)
    requires
        ps.len() >= 1,
    ensures
        joined(ps.update(ps.len() - 1, ps.last().push(c)), sep) == joined(ps, sep).push(c),
{
    let q = ps.update(ps.len() - 1, ps.last().push(c));
    if ps.len() == 1 {
        assert(joined(q, sep) == q[0]);
    } else {
        assert(q.drop_last() =~= ps.drop_last());
        assert(joined(q, sep) =~= joined(ps, sep).push(c));
    }
}

/// Joining the pieces of `s` with the separator gives `s` back: `s` is cut
/// at the separators and nowhere else.
pub proof fn law_pieces_rejoin(s: Seq<char>, sep: char)
    ensures
        joined(pieces(s, sep), sep) == s,
    decreases s.len(),
{
    if s.len() == 0 {
        assert(joined(pieces(s, sep), sep) =~= s);
    } else {
        law_pieces_rejoin(s.drop_last(), sep);
        lemma_pieces_not_empty(s.drop_last(), sep);
        let p = pieces(s.drop_last(), sep);
        if s.last() == sep {
            let q = p.push(Seq::<char>::empty());
            assert(q.drop_last() =~= p);
            assert(joined(q, sep) =~= s.drop_last() + seq![sep]);
            assert(s.drop_last() + seq![sep] =~= s);
        } else {
            lemma_joined_extend_last(p, sep, s.last());
            assert(s.drop_last().push(s.last()) =~= s);
        }
    }
}

/// No piece holds the separator.
pub proof fn law_pieces_free_of_separator(s: Seq<char>, sep: char)
    ensures
        forall|i: int| 0 <= i < pieces(s, sep).len() ==> !(#[trigger] pieces(s, sep)[i]).contains(sep),
    decreases s.len(),
{
    if s.len() > 0 {
        law_pieces_free_of_separator(s.drop_last(), sep);
        lemma_pieces_not_empty(s.drop_last(), sep);
        let p = pieces(s.drop_last(), sep);
        let q = pieces(s, sep);
        assert forall|i: int| 0 <= i < q.len() implies !(#[trigger] q[i]).contains(sep) by {
            if s.last() == sep {
                if i < p.len() {
                    assert(q[i] == p[i]);
                } else {
                    assert(q[i] =~= Seq::<char>::empty());
                }
            } else if i < p.len() - 1 {
                assert(q[i] == p[i]);
            } else {
                let w = p.last().push(s.last());
                assert(q[i] == w);
                if w.contains(sep) {
                    let k = choose|k: int| 0 <= k < w.len() && w[k] == sep;
                    if k < p.last().len() {
                        assert(p[p.len() - 1][k] == sep);
                    }
                }
            }
        }
    }
}

proof fn lemma_pieces_without_separator(s: Seq<char>, sep: char)
    requires
        !s.contains(sep),
    ensures
        pieces(s, sep) == seq![s],
    decreases s.len(),
{
    if s.len() == 0 {
        assert(s =~= Seq::<char>::empty());
        assert(pieces(s, sep) =~= seq![s]);
    } else {
        let d = s.drop_last();
        assert(!d.contains(sep)) by {
            if d.contains(sep) {
                let k = choose|k: int| 0 <= k < d.len() && d[k] == sep;
                assert(s[k] == sep);
            }
        }
        lemma_pieces_without_separator(d, sep);
        assert(s.last() == s[s.len() - 1]);
        assert(s.last() != sep);
        assert(d.push(s.last()) =~= s);
        let p = pieces(d, sep);
        assert(p.len() == 1 && p.last() == d);
        assert(pieces(s, sep) == p.update(0, d.push(s.last())));
        assert(p.update(0, d.push(s.last())) =~= seq![s]);
    }
}

/// A list without `;` gives one name, the trimmed list, unless it is blank.
pub proof fn law_split_names_without_separator(s: Seq<char>)
    requires
        !s.contains(';'),
    ensures
        trimmed(s).len() > 0 ==> split_names_spec(s) == seq![trimmed(s)],
        trimmed(s).len() == 0 ==> split_names_spec(s).len() == 0,
{
    lemma_pieces_without_separator(s, ';');
    let ps = pieces(s, ';');
    assert(ps.len() == 1);
    assert(ps.drop_last() =~= Seq::<Seq<char>>::empty());
    assert(ps.last() == s);
    assert(kept_names(Seq::<Seq<char>>::empty()) == Seq::<Seq<char>>::empty());
    if trimmed(s).len() > 0 {
        assert(split_names_spec(s) =~= seq![trimmed(s)]);
    }
}

} // verus!
