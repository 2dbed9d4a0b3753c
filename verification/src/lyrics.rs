//! Sequencing of lyrics lookups: one lookup per song change, and results of
//! superseded lookups are dropped.

use vstd::prelude::*;
use crate::charclass::push_char;
use crate::text::same_text;

verus! {

/// Remembers the song whose lyrics were last asked for and numbers the
/// lookups.
pub struct LyricsTracker {
    pub last_key: String,
    pub fetch_gen: u32,
}

/// The mathematical value of a [`LyricsTracker`].
pub struct LyricsTrackerView {
    pub last_key: Seq<char>,
    pub fetch_gen: u32,
}

impl View for LyricsTracker {
    type V = LyricsTrackerView;

    open spec fn view(&self) -> LyricsTrackerView {
        LyricsTrackerView { last_key: self.last_key@, fetch_gen: self.fetch_gen }
    }
}

/// What to do after the current song changed.
#[derive(PartialEq, Eq, Structural, Debug, Clone, Copy)]
pub enum LyricsStep {
    /// The same song as before: nothing to do.
    Unchanged,
    /// No song title: show that there are no lyrics.
    NoTitle,
    /// Look the lyrics up; the lookup carries this number.
    Lookup(u32),
}

/// The key of a song: its title, `|`, and its path.
pub open spec fn song_key(title: Seq<char>, path: Seq<char>) -> Seq<char> {
    title + seq!['|'] + path
}

/// The number after `g`, wrapping around to 0.
pub open spec fn next_fetch_gen(g: u32) -> u32 {
    if g == u32::MAX {
        0
    } else {
        (g + 1) as u32
    }
}

/// The tracker after the song changed to `title` at `path`.
pub open spec fn tracker_after(s: LyricsTrackerView, title: Seq<char>, path: Seq<char>) -> LyricsTrackerView {
    if song_key(title, path) == s.last_key {
        s
    } else {
        LyricsTrackerView { last_key: song_key(title, path), fetch_gen: next_fetch_gen(s.fetch_gen) }
    }
}

/// What to do after the song changed to `title` at `path`.
pub open spec fn step_after(s: LyricsTrackerView, title: Seq<char>, path: Seq<char>) -> LyricsStep {
    if song_key(title, path) == s.last_key {
        LyricsStep::Unchanged
    } else if title.len() == 0 {
        LyricsStep::NoTitle
    } else {
        LyricsStep::Lookup(next_fetch_gen(s.fetch_gen))
    }
}

impl LyricsTracker {
    /// A tracker that has seen no song yet.
    pub fn new() -> (res: LyricsTracker)
        ensures
            res@.last_key == Seq::<char>::empty(),
            res@.fetch_gen == 0,
    {
        LyricsTracker { last_key: String::new(), fetch_gen: 0 }
    }

    /// Records that the current song is `title` at `track_path` and says
    /// what to do about its lyrics.
    pub fn on_song_change(&mut self, title: &str, track_path: &str) -> (res: LyricsStep)
        ensures
            final(self)@ == tracker_after(old(self)@, title@, track_path@),
            res == step_after(old(self)@, title@, track_path@),
    {
        let mut key = String::new();
        key.append(title);
        push_char(&mut key, '|');
        key.append(track_path);
        assert(key@ =~= song_key(title@, track_path@));
        if same_text(self.last_key.as_str(), key.as_str()) {
            return LyricsStep::Unchanged;
        }
        self.last_key = key;
        let fetch_id: u32 = if self.fetch_gen == u32::MAX { 0 } else { self.fetch_gen + 1 };
        self.fetch_gen = fetch_id;
        if title.is_empty() {
            LyricsStep::NoTitle
        } else {
            LyricsStep::Lookup(fetch_id)
        }
    }

    /// Whether the result of lookup `fetch_id` is still wanted.
    pub fn is_current(&self, fetch_id: u32) -> (res: bool)
        ensures
            res == (self@.fetch_gen == fetch_id),
    {
        self.fetch_gen == fetch_id
    }
}

/// The lookup started by a song change is the one whose result is wanted.
pub proof fn law_new_lookup_is_current(s: LyricsTrackerView, title: Seq<char>, path: Seq<char>, id: u32)
    requires
        step_after(s, title, path) == LyricsStep::Lookup(id),
    ensures
        tracker_after(s, title, path).fetch_gen == id,
{
}

/// Once the song changes again, the result of the earlier lookup is
/// dropped.
pub proof fn law_superseded_lookup_dropped(
    s: LyricsTrackerView,
    title: Seq<char>,
    path: Seq<char>,
    id: u32,
    next_title: Seq<char>,
    next_path: Seq<char>,
)
    requires
        step_after(s, title, path) == LyricsStep::Lookup(id),
        step_after(tracker_after(s, title, path), next_title, next_path) != LyricsStep::Unchanged,
    ensures
        tracker_after(tracker_after(s, title, path), next_title, next_path).fetch_gen != id,
{
}

/// Reporting the same song twice starts nothing the second time and leaves
/// the tracker as it was.
pub proof fn law_same_song_unchanged(s: LyricsTrackerView, title: Seq<char>, path: Seq<char>)
    ensures
        step_after(tracker_after(s, title, path), title, path) == LyricsStep::Unchanged,
        tracker_after(tracker_after(s, title, path), title, path) == tracker_after(s, title, path),
{
}

} // verus!

verus! {

/// The tracker after the songs `songs` (title, path) were reported in turn.
pub open spec fn tracker_after_songs(s: LyricsTrackerView, songs: Seq<(Seq<char>, Seq<char>)>) -> LyricsTrackerView
    decreases songs.len(),
{
    if songs.len() == 0 {
        s
    } else {
        tracker_after(tracker_after_songs(s, songs.drop_last()), songs.last().0, songs.last().1)
    }
}

/// How many of the reports `songs` changed the song.
pub open spec fn song_changes(s: LyricsTrackerView, songs: Seq<(Seq<char>, Seq<char>)>) -> nat
    decreases songs.len(),
{
    if songs.len() == 0 {
        0
    } else {
        let before = tracker_after_songs(s, songs.drop_last());
        song_changes(s, songs.drop_last()) + if step_after(before, songs.last().0, songs.last().1)
            == LyricsStep::Unchanged {
            0nat
        } else {
            1nat
        }
    }
}

proof fn lemma_fetch_gen_counts_changes(s: LyricsTrackerView, songs: Seq<(Seq<char>, Seq<char>)>)
    ensures
        tracker_after_songs(s, songs).fetch_gen as int == (s.fetch_gen + song_changes(s, songs))
            % 4294967296,
    decreases songs.len(),
{
    if songs.len() == 0 {
        assert((s.fetch_gen + 0) % 4294967296 == s.fetch_gen as int);
    } else {
        lemma_fetch_gen_counts_changes(s, songs.drop_last());
        let before = tracker_after_songs(s, songs.drop_last());
        let c = song_changes(s, songs.drop_last());
        if step_after(before, songs.last().0, songs.last().1) != LyricsStep::Unchanged {
            let g = before.fetch_gen as int;
            assert(next_fetch_gen(before.fetch_gen) as int == (g + 1) % 4294967296);
            vstd::arithmetic::div_mod::lemma_add_mod_noop(s.fetch_gen + c, 1, 4294967296);
            assert((1int % 4294967296) == 1);
            assert(((g % 4294967296) + 1) % 4294967296 == (g + 1) % 4294967296) by {
                assert(g % 4294967296 == g);
            }
        }
    }
}

/// A lookup's result stays dropped through any number of later song
/// changes, unless the lookup numbers have gone exactly all the way round
/// (a multiple of 2^32 changes).
pub proof fn law_superseded_lookup_stays_dropped(
    s: LyricsTrackerView,
    title: Seq<char>,
    path: Seq<char>,
    id: u32,
    later: Seq<(Seq<char>, Seq<char>)>,
)
    requires
        step_after(s, title, path) == LyricsStep::Lookup(id),
        song_changes(tracker_after(s, title, path), later) % 4294967296 != 0,
    ensures
        tracker_after_songs(tracker_after(s, title, path), later).fetch_gen != id,
{
    let s1 = tracker_after(s, title, path);
    lemma_fetch_gen_counts_changes(s1, later);
    let k = song_changes(s1, later) as int;
    let r = k % 4294967296;
    assert(s1.fetch_gen == id);
    vstd::arithmetic::div_mod::lemma_add_mod_noop(id as int, k, 4294967296);
    assert((id as int) % 4294967296 == id as int);
    assert(0 < r < 4294967296);
    if id + r < 4294967296 {
        assert((id + r) % 4294967296 == id + r);
    } else {
        assert((id + r) % 4294967296 == id + r - 4294967296);
    }
}

} // verus!

verus! {

/// A report changes nothing exactly when the stored key is the reported
/// title, `|` and path; otherwise the key becomes that text and the lookup
/// number moves on by one (wrapping round).
pub proof fn law_change_iff_new_key(s: LyricsTrackerView, title: Seq<char>, path: Seq<char>)
    ensures
        (step_after(s, title, path) == LyricsStep::Unchanged) <==> (s.last_key == title + seq!['|']
            + path),
        (step_after(s, title, path) == LyricsStep::Unchanged) ==> tracker_after(s, title, path)
            == s,
        s.last_key != title + seq!['|'] + path ==> tracker_after(s, title, path).last_key == title
            + seq!['|'] + path && tracker_after(s, title, path).fetch_gen as int == (s.fetch_gen
            + 1) % 4294967296,
        s.last_key != title + seq!['|'] + path && title.len() > 0 ==> step_after(s, title, path)
            == LyricsStep::Lookup(tracker_after(s, title, path).fetch_gen),
        s.last_key != title + seq!['|'] + path && title.len() == 0 ==> step_after(s, title, path)
            == LyricsStep::NoTitle,
{
}

/// The same title at another path is another song: its lyrics are looked
/// up again.
pub proof fn law_other_path_is_new_song(s: LyricsTrackerView, title: Seq<char>, p1: Seq<char>, p2: Seq<char>)
    requires
        s.last_key == title + seq!['|'] + p1,
        p1 != p2,
    ensures
        step_after(s, title, p2) != LyricsStep::Unchanged,
        tracker_after(s, title, p2).fetch_gen != s.fetch_gen,
{
    let k1 = title + seq!['|'] + p1;
    let k2 = title + seq!['|'] + p2;
    if k1 == k2 {
        assert(k1.subrange(title.len() + 1int, k1.len() as int) =~= p1);
        assert(k2.subrange(title.len() + 1int, k2.len() as int) =~= p2);
    }
}

} // verus!
