use musicbox::clock::{format_queue_duration, format_track_duration};
use musicbox::lyrics::{LyricsStep, LyricsTracker};
use musicbox::metadata::{
    assemble_track, extract_embedded_cover, extract_metadata, has_char, make_album_id,
    slug_from_lowercase, slugify_album_key, split_names,
};
use musicbox::library::{cover_source, cover_source_from_parent, CoverSource};
use musicbox::models::{Album, AudioProperties, Library, TagInfo, Track};
use musicbox::queue::{back_positions, queue_order, up_next_duration, up_next_rows, Tabs};
use musicbox::radio::{default_stream_id, offers_stream_choice, radio_stations};
use musicbox::showcase::{
    bulk_action, is_jellyfin_path, is_now_playing, row_plays, total_minutes, BulkAction, NowPlaying,
};
use musicbox::stations::stream_url;
use musicbox::text::{contains_text, same_text, trim_text};

fn empty_tag() -> TagInfo {
    TagInfo {
        title: None,
        artist: None,
        track_artists: Vec::new(),
        album: None,
        album_artist: None,
        genre: None,
        year: None,
        track: None,
        disk: None,
        musicbrainz_release_id: None,
        first_picture: None,
    }
}

fn props(secs: u64, nanos: u32) -> AudioProperties {
    AudioProperties { sample_rate: Some(44100), bit_depth: Some(16), duration_secs: secs, duration_subsec_nanos: nanos }
}

#[test]
fn stream_url_listen_moe() {
    assert_eq!(stream_url("listen_moe", "listen_moe_kpop"), "https://listen.moe/kpop/stream");
    assert_eq!(stream_url("listen_moe", "listen_moe_jpop"), "https://listen.moe/stream");
}

#[test]
fn stream_url_j1() {
    assert_eq!(stream_url("j1", "J1GOLD"), "https://jenny.torontocast.com:2000/stream/J1GOLD");
    assert_eq!(stream_url("j1", "J1HITS"), "https://jenny.torontocast.com:2000/stream/J1HITS");
    assert_eq!(stream_url("j1", "anything"), "https://jenny.torontocast.com:2000/stream/J1HITS");
}

#[test]
fn stream_url_other_stations() {
    assert_eq!(stream_url("doujinstyle", ""), "https://streams.radio.co/s5ff57669c/listen");
    assert_eq!(stream_url("vocaloid", "x"), "https://vocaloid.radioca.st/stream");
    assert_eq!(stream_url("unknown", "kpop"), "");
    assert_eq!(stream_url("", ""), "");
}

#[test]
fn text_helpers() {
    assert!(same_text("abc", "abc"));
    assert!(!same_text("abc", "abd"));
    assert!(contains_text("xxkpopyy", "kpop"));
    assert!(contains_text("abc", ""));
    assert!(!contains_text("kpo", "kpop"));
    assert_eq!(trim_text("  a b \t\n"), "a b");
    assert_eq!(trim_text("\u{3000}x\u{a0}"), "x");
    assert_eq!(trim_text("   "), "");
}

#[test]
fn slugify_lowercases_and_cleans() {
    assert_eq!(slugify_album_key("Hello World"), "hello_world");
    assert_eq!(slugify_album_key("AC/DC: Live!"), "acdc_live");
    assert_eq!(slugify_album_key("Ünïcödé Ä"), "ünïcödé_ä");
    assert_eq!(slugify_album_key("a_b-c"), "a_bc");
    assert_eq!(slug_from_lowercase("x y"), "x_y");
}

#[test]
fn album_id_from_name() {
    assert_eq!(make_album_id("  Abbey Road ", "whatever"), "alb_abbey_road");
    assert_eq!(make_album_id("Abbey Road", "other"), "alb_abbey_road");
}

#[test]
fn album_id_fallbacks() {
    assert_eq!(make_album_id("", "The Beatles"), "alb_unknown_the_beatles");
    assert_eq!(make_album_id("   ", "/music/a"), "alb_unknown_musica");
    assert_eq!(make_album_id("", "!!!"), "alb_unknown");
    assert_eq!(make_album_id("", ""), "alb_unknown");
}

#[test]
fn split_names_trims_and_drops_empty() {
    assert_eq!(split_names("A; B ;;C"), vec!["A".to_string(), "B".to_string(), "C".to_string()]);
    assert_eq!(split_names(""), Vec::<String>::new());
    assert_eq!(split_names(" ; "), Vec::<String>::new());
    assert!(has_char("a;b", ';'));
    assert!(!has_char("ab", ';'));
}

#[test]
fn metadata_without_tag_uses_path() {
    let t = extract_metadata(None, &props(200, 1), "/music/a/song.mp3");
    assert_eq!(t.path, "/music/a/song.mp3");
    assert_eq!(t.title, "song");
    assert_eq!(t.artist, "Unknown Artist");
    assert_eq!(t.artists, vec!["Unknown Artist".to_string()]);
    assert_eq!(t.album, "Unknown Album");
    assert_eq!(t.album_id, "alb_unknown_musica");
    assert_eq!(t.duration, 201);
    assert_eq!(t.khz, 44100);
    assert_eq!(t.bitrate, 16);
    assert_eq!(t.track_number, None);
    assert_eq!(t.playlist_item_id, None);
}

#[test]
fn metadata_with_tag() {
    let mut tag = empty_tag();
    tag.title = Some("Come Together".to_string());
    tag.artist = Some("The Beatles".to_string());
    tag.album = Some("Abbey Road".to_string());
    tag.track = Some(1);
    tag.disk = Some(2);
    tag.musicbrainz_release_id = Some("mbid".to_string());
    let t = extract_metadata(Some(&tag), &props(259, 0), "/m/x.flac");
    assert_eq!(t.title, "Come Together");
    assert_eq!(t.artist, "The Beatles");
    assert_eq!(t.artists, vec!["The Beatles".to_string()]);
    assert_eq!(t.album, "Abbey Road");
    assert_eq!(t.album_id, "alb_abbey_road");
    assert_eq!(t.duration, 259);
    assert_eq!(t.track_number, Some(1));
    assert_eq!(t.disc_number, Some(2));
    assert_eq!(t.musicbrainz_release_id, Some("mbid".to_string()));
}

#[test]
fn metadata_artists_from_tag_and_separator() {
    let mut tag = empty_tag();
    tag.artist = Some("A; B".to_string());
    let t = extract_metadata(Some(&tag), &props(1, 0), "/m/x.flac");
    assert_eq!(t.artists, vec!["A".to_string(), "B".to_string()]);
    tag.track_artists = vec!["X ; Y".to_string(), "Z".to_string()];
    let t = extract_metadata(Some(&tag), &props(1, 0), "/m/x.flac");
    assert_eq!(t.artists, vec!["X".to_string(), "Y".to_string(), "Z".to_string()]);
    tag.track_artists = vec![" ; ".to_string()];
    let t = extract_metadata(Some(&tag), &props(1, 0), "/m/x.flac");
    assert_eq!(t.artists, vec!["A".to_string(), "B".to_string()]);
}

#[test]
fn metadata_grouping_by_album_artist() {
    let mut tag = empty_tag();
    tag.album_artist = Some("Various Artists".to_string());
    let t = extract_metadata(Some(&tag), &props(1, 0), "/m/x.flac");
    assert_eq!(t.album_id, "alb_unknown_various_artists");
    assert_eq!(t.title, "x");
    let t = assemble_track(None, &props(0, 0), "p", None, None);
    assert_eq!(t.title, "Unknown Title");
    assert_eq!(t.album_id, "alb_unknown_unknown_artist");
}

#[test]
fn embedded_cover_prefers_chosen_tag() {
    let mut chosen = empty_tag();
    chosen.first_picture = Some(vec![1, 2]);
    let mut other = empty_tag();
    other.first_picture = Some(vec![3]);
    let all = vec![empty_tag(), other];
    assert_eq!(extract_embedded_cover(&all, Some(&chosen)), Some(vec![1, 2]));
    assert_eq!(extract_embedded_cover(&all, Some(&empty_tag())), Some(vec![3]));
    assert_eq!(extract_embedded_cover(&all, None), Some(vec![3]));
    assert_eq!(extract_embedded_cover(&vec![empty_tag()], None), None);
}

fn track_in(album_id: &str, artist: &str, album: &str) -> Track {
    let mut t = assemble_track(None, &props(10, 0), "/x", None, None);
    t.album_id = album_id.to_string();
    t.artist = artist.to_string();
    t.album = album.to_string();
    t
}

#[test]
fn catalog_adds_album_once() {
    let mut lib = Library::new();
    let mut tag = empty_tag();
    tag.genre = Some("Rock".to_string());
    tag.year = Some(1969);
    tag.album_artist = Some("The Beatles".to_string());
    lib.catalog_track(track_in("alb_x", "John", "X"), Some(&tag), Some("/c/x.jpg".to_string()));
    assert_eq!(lib.albums.len(), 1);
    assert_eq!(lib.albums[0].id, "alb_x");
    assert_eq!(lib.albums[0].title, "X");
    assert_eq!(lib.albums[0].artist, "The Beatles");
    assert_eq!(lib.albums[0].genre, "Rock");
    assert_eq!(lib.albums[0].year, 1969);
    assert_eq!(lib.albums[0].cover_path, Some("/c/x.jpg".to_string()));
    lib.catalog_track(track_in("alb_x", "Paul", "X"), None, Some("/c/other.jpg".to_string()));
    assert_eq!(lib.albums.len(), 1);
    assert_eq!(lib.albums[0].cover_path, Some("/c/x.jpg".to_string()));
    assert_eq!(lib.tracks.len(), 2);
    assert!(lib.has_album(&"alb_x".to_string()));
    assert!(!lib.has_album(&"alb_y".to_string()));
}

#[test]
fn catalog_defaults_without_tag() {
    let mut lib = Library::new();
    lib.catalog_track(track_in("alb_y", "Solo", "Y"), None, None);
    assert_eq!(lib.albums[0].artist, "Solo");
    assert_eq!(lib.albums[0].genre, "Unknown");
    assert_eq!(lib.albums[0].year, 0);
    assert_eq!(lib.albums[0].cover_path, None);
    let mut tag = empty_tag();
    tag.year = Some(70000);
    lib.catalog_track(track_in("alb_z", "Solo", "Z"), Some(&tag), None);
    assert_eq!(lib.albums[1].year, 70000u32 as u16);
    assert_eq!(lib.albums[1].artist, "Solo");
}

#[test]
fn album_cover_lookup() {
    let mut lib = Library::new();
    lib.add_album(Album {
        id: "a".to_string(),
        title: "A".to_string(),
        artist: "x".to_string(),
        genre: "g".to_string(),
        year: 1,
        cover_path: Some("/a.png".to_string()),
    });
    assert_eq!(lib.album_cover(&"a".to_string()), Some("/a.png".to_string()));
    assert_eq!(lib.album_cover(&"b".to_string()), None);
}

#[test]
fn clock_texts() {
    assert_eq!(format_track_duration(0), "0:00");
    assert_eq!(format_track_duration(125), "2:05");
    assert_eq!(format_track_duration(3725), "62:05");
    assert_eq!(format_queue_duration(59), "0:59");
    assert_eq!(format_queue_duration(3725), "1:02:05");
    assert_eq!(format_queue_duration(36000), "10:00:00");
    assert_eq!(format_queue_duration(125), format_track_duration(125));
}

#[test]
fn queue_order_views() {
    assert_eq!(queue_order(3, false, &vec![2, 0]), vec![0, 1, 2]);
    assert_eq!(queue_order(3, true, &vec![2, 7, 0, 1]), vec![2, 0, 1]);
    assert_eq!(queue_order(0, false, &vec![]), Vec::<usize>::new());
}

#[test]
fn queue_back_and_next() {
    assert_eq!(back_positions(5, 2), vec![1, 0]);
    assert_eq!(back_positions(5, 0), Vec::<usize>::new());
    assert_eq!(back_positions(2, 5), Vec::<usize>::new());
    let rows = up_next_rows(4, 1);
    assert_eq!(rows.len(), 2);
    assert_eq!((rows[0].position, rows[0].can_move_up, rows[0].can_move_down), (2, false, true));
    assert_eq!((rows[1].position, rows[1].can_move_up, rows[1].can_move_down), (3, true, false));
    assert!(up_next_rows(4, 3).is_empty());
    assert!(up_next_rows(4, 9).is_empty());
}

#[test]
fn queue_remaining_time() {
    let d = vec![100, 200, 300, 400];
    assert_eq!(up_next_duration(&d, 0), 900);
    assert_eq!(up_next_duration(&d, 3), 0);
    assert_eq!(up_next_duration(&d, 10), 0);
    assert_eq!(format_queue_duration(up_next_duration(&d, 0)), "15:00");
}

#[test]
fn showcase_now_playing() {
    let t = track_in("alb_x", "A", "X");
    let mut now = NowPlaying {
        path: Some("/x".to_string()),
        title: String::new(),
        artist: String::new(),
        album: String::new(),
        duration: 0,
    };
    assert!(is_now_playing(&t, &now));
    now.path = Some("/other".to_string());
    assert!(!is_now_playing(&t, &now));
    now.title = t.title.clone();
    now.artist = "A".to_string();
    now.album = "X".to_string();
    now.duration = 10;
    assert!(is_now_playing(&t, &now));
    now.duration = 11;
    assert!(!is_now_playing(&t, &now));
}

#[test]
fn showcase_helpers() {
    assert!(is_jellyfin_path("jellyfin:abc"));
    assert!(!is_jellyfin_path("/jellyfin:abc"));
    assert!(!is_jellyfin_path("jelly"));
    assert_eq!(total_minutes(&vec![59, 61, 120]), 4);
    assert_eq!(total_minutes(&vec![]), 0);
    assert_eq!(bulk_action(true, true), Some(BulkAction::Delete));
    assert_eq!(bulk_action(false, true), Some(BulkAction::Download));
    assert_eq!(bulk_action(false, false), None);
}

#[test]
fn lyrics_tracker_sequencing() {
    let mut tr = LyricsTracker::new();
    let step = tr.on_song_change("Song", "/a.mp3");
    assert_eq!(step, LyricsStep::Lookup(1));
    assert!(tr.is_current(1));
    assert_eq!(tr.on_song_change("Song", "/a.mp3"), LyricsStep::Unchanged);
    assert_eq!(tr.on_song_change("Other", "/b.mp3"), LyricsStep::Lookup(2));
    assert!(!tr.is_current(1));
    assert_eq!(tr.on_song_change("", "/b.mp3"), LyricsStep::NoTitle);
    assert_eq!(tr.fetch_gen, 3);
    assert_eq!(tr.last_key, "|/b.mp3");
}

#[test]
fn lyrics_tracker_wraps_numbering() {
    let mut tr = LyricsTracker { last_key: String::new(), fetch_gen: u32::MAX };
    assert_eq!(tr.on_song_change("S", "p"), LyricsStep::Lookup(0));
    assert!(tr.is_current(0));
}

#[test]
fn radio_catalog() {
    let stations = radio_stations();
    assert_eq!(stations.len(), 1);
    assert_eq!(stations[0].name, "LISTEN.moe");
    assert_eq!(default_stream_id(&stations[0]), Some("listen_moe_jpop"));
    assert!(offers_stream_choice(&stations[0]));
    assert_eq!(stream_url("listen_moe", stations[0].streams[1].id), "https://listen.moe/kpop/stream");
}

#[test]
fn side_panel_tabs() {
    assert_ne!(Tabs::Back, Tabs::Next);
    assert_eq!(Tabs::Lyrics, Tabs::Lyrics);
}

#[test]
fn now_playing_compares_paths_by_component() {
    let mut t = track_in("alb_x", "A", "X");
    t.path = "/music/a.mp3".to_string();
    let now = NowPlaying {
        path: Some("/music//a.mp3".to_string()),
        title: String::new(),
        artist: String::new(),
        album: String::new(),
        duration: 0,
    };
    assert!(is_now_playing(&t, &now));
    assert!(row_plays(&t, &now, true));
    assert!(!row_plays(&t, &now, false));
}

#[test]
fn cover_source_choices() {
    assert!(matches!(cover_source(true, Some(vec![1]), "/m/a.mp3"), CoverSource::Keep));
    match cover_source(false, Some(vec![1, 2]), "/m/a.mp3") {
        CoverSource::Embedded(b) => assert_eq!(b, vec![1, 2]),
        _ => panic!("expected the embedded picture"),
    }
    match cover_source(false, None, "/m/a.mp3") {
        CoverSource::Folder(f) => assert_eq!(f, "/m"),
        _ => panic!("expected the parent folder"),
    }
    assert!(matches!(cover_source(false, None, "/"), CoverSource::NoFolder));
    assert!(matches!(cover_source_from_parent(false, None, None), CoverSource::NoFolder));
}

#[test]
fn lyrics_lookup_dropped_after_many_changes() {
    let mut tr = LyricsTracker::new();
    let first = tr.on_song_change("S0", "p");
    assert_eq!(first, LyricsStep::Lookup(1));
    for k in 1..50 {
        let title = format!("S{}", k);
        tr.on_song_change(&title, "p");
        assert!(!tr.is_current(1));
    }
}

#[test]
fn trimming_twice_is_trimming_once() {
    let once = trim_text(" \u{2003}x y\u{3000} ");
    assert_eq!(once, "x y");
    assert_eq!(trim_text(once), once);
    assert_eq!(make_album_id(" Abbey Road ", "k"), make_album_id("Abbey Road", "k"));
    assert_eq!(slugify_album_key(&slugify_album_key("Hello World!")), slugify_album_key("Hello World!"));
}

#[test]
fn album_ids_ignore_ascii_case() {
    assert_eq!(make_album_id("ABBEY ROAD", "k"), make_album_id("abbey road", "k"));
    assert_eq!(make_album_id("", "THE BEATLES"), make_album_id("", "the beatles"));
    assert_eq!(slugify_album_key("alb_x_1"), "alb_x_1");
}

#[test]
fn extension_hints() {
    assert_eq!(musicbox::paths::extension_hint("/m/a.flac"), Some("flac".to_string()));
    assert_eq!(musicbox::paths::extension_hint("/m/a"), None);
    assert_eq!(musicbox::paths::extension_hint("/m/a.tar.gz"), Some("gz".to_string()));
}
