use vstd::prelude::*;

use crate::codec::base64_decoded;
use crate::envelope::{record_items, ItemView};
use crate::metadata::{
    empty_update, field_kind, process_xml, update_of, updated_by, FieldKind, PlaybackStatus, SongData,
    SongDataView,
};
use crate::position::{
    parse_progress, progress_of, slash_positions, restarted, ticked, ticked_all, PlaybackPosition,
};

verus! {

/// What is known of the current track; it outlives the records that
/// update it.
pub struct SongState {
    pub title: String,
    pub artist: String,
    pub album: String,
    pub genre: String,
    /// Album art as base64 text.
    pub album_art: String,
    /// The album art as it was when last handed out for display.
    pub previous_album_art: String,
    pub track_length_ms: u32,
    pub playback_status: PlaybackStatus,
    pub position: PlaybackPosition,
}

/// The mathematical value of a [`SongState`].
pub struct SongStateView {
    pub title: Seq<char>,
    pub artist: Seq<char>,
    pub album: Seq<char>,
    pub genre: Seq<char>,
    pub album_art: Seq<char>,
    pub previous_album_art: Seq<char>,
    pub track_length_ms: u32,
    pub playback_status: PlaybackStatus,
    pub position: PlaybackPosition,
}

impl View for SongState {
    type V = SongStateView;

    open spec fn view(&self) -> SongStateView {
        SongStateView {
            title: self.title@,
            artist: self.artist@,
            album: self.album@,
            genre: self.genre@,
            album_art: self.album_art@,
            previous_album_art: self.previous_album_art@,
            track_length_ms: self.track_length_ms,
            playback_status: self.playback_status,
            position: self.position,
        }
    }
}

/// The text fields of `s` after the update `u`: only the first non-empty
/// one of genre, title, album, artist and album art, in that order, is
/// taken over.
pub open spec fn merged_fields(s: SongStateView, u: SongDataView) -> SongStateView {
    if u.genre.len() > 0 {
        SongStateView { genre: u.genre, ..s }
    } else if u.title.len() > 0 {
        SongStateView { title: u.title, ..s }
    } else if u.album.len() > 0 {
        SongStateView { album: u.album, ..s }
    } else if u.artist.len() > 0 {
        SongStateView { artist: u.artist, ..s }
    } else if u.album_art.len() > 0 {
        SongStateView { album_art: u.album_art, ..s }
    } else {
        s
    }
}

/// The position after the update `u` at time `now`: a progress triple
/// resets it, and a pause signal then stops it.
pub open spec fn merged_position(p: PlaybackPosition, u: SongDataView, now: u64) -> PlaybackPosition {
    let q = match progress_of(u.progress) {
        Some((a, b, c)) => restarted(a, b, c, now),
        None => p,
    };
    if u.playback_status == PlaybackStatus::Paused {
        PlaybackPosition { is_playing: false, ..q }
    } else {
        q
    }
}

/// `s` after the update `u` that arrived at time `now`.
pub open spec fn merged(s: SongStateView, u: SongDataView, now: u64) -> SongStateView {
    let f = merged_fields(s, u);
    SongStateView {
        track_length_ms: if u.track_length_ms != 0 {
            u.track_length_ms
        } else {
            s.track_length_ms
        },
        playback_status: if u.playback_status != PlaybackStatus::Unknown {
            u.playback_status
        } else {
            s.playback_status
        },
        position: merged_position(s.position, u, now),
        ..f
    }
}

impl SongState {
    /// Nothing known yet, with `now` as the position's baseline.
    pub fn new(now: u64) -> (r: SongState)
        ensures
            r@ == (SongStateView {
                title: Seq::empty(),
                artist: Seq::empty(),
                album: Seq::empty(),
                genre: Seq::empty(),
                album_art: Seq::empty(),
                previous_album_art: Seq::empty(),
                track_length_ms: 0,
                playback_status: PlaybackStatus::Unknown,
                position: PlaybackPosition {
                    start: 0,
                    current: 0,
                    end: 0,
                    last_sample_time: now,
                    is_playing: false,
                },
            }),
    {
        SongState {
            title: String::new(),
            artist: String::new(),
            album: String::new(),
            genre: String::new(),
            album_art: String::new(),
            previous_album_art: String::new(),
            track_length_ms: 0,
            playback_status: PlaybackStatus::Unknown,
            position: PlaybackPosition::new(now),
        }
    }

    /// Merges the update of one record, which arrived at time `now`.
    pub fn apply_update(&mut self, update: SongData, now: u64)
        ensures
            final(self)@ == merged(old(self)@, update@, now),
    {
        if !update.genre.as_str().is_empty() {
            self.genre = update.genre;
        } else if !update.title.as_str().is_empty() {
            self.title = update.title;
        } else if !update.album.as_str().is_empty() {
            self.album = update.album;
        } else if !update.artist.as_str().is_empty() {
            self.artist = update.artist;
        } else if !update.album_art.as_str().is_empty() {
            self.album_art = update.album_art;
        }
        if update.track_length_ms != 0 {
            self.track_length_ms = update.track_length_ms;
        }
        if update.playback_status != PlaybackStatus::Unknown {
            self.playback_status = update.playback_status;
        }
        if let Some((start, current, end)) = parse_progress(update.progress.as_str()) {
            self.position.restart(start, current, end, now);
        }
        if update.playback_status == PlaybackStatus::Paused {
            self.position.pause();
        }
    }

    /// Decodes one framed record and merges what it says.
    pub fn ingest_record(&mut self, record: &str, now: u64)
        ensures
            final(self)@ == merged(old(self)@, update_of(record_items(record@)), now),
    {
        let update = process_xml(record);
        self.apply_update(update, now);
    }

    /// Brings the position estimate up to the wall-clock time `now`.
    pub fn tick(&mut self, now: u64)
        ensures
            final(self)@ == (SongStateView { position: ticked(old(self).position, now), ..old(self)@ }),
    {
        self.position.tick(now);
    }

    /// The album art, where it changed since it was last handed out; it
    /// then counts as handed out.
    pub fn take_album_art_change(&mut self) -> (r: Option<String>)
        ensures
            old(self).album_art@ != old(self).previous_album_art@ ==> (r matches Some(a) && a@
                == old(self).album_art@),
            old(self).album_art@ != old(self).previous_album_art@ ==> final(self)@ == (SongStateView {
                previous_album_art: old(self).album_art@,
                ..old(self)@
            }),
            old(self).album_art@ == old(self).previous_album_art@ ==> r is None && final(self)@
                == old(self)@,
    {
        if self.album_art == self.previous_album_art {
            None
        } else {
            self.previous_album_art = self.album_art.clone();
            Some(self.album_art.clone())
        }
    }
}

proof fn lemma_empty_update_keeps_state(s: SongStateView, now: u64)
    ensures
        merged(s, empty_update(), now) == s,
{
    assert(slash_positions(empty_update().progress).len() == 0);
    assert(progress_of(empty_update().progress) is None);
}

/// An item whose `(type, code)` pair the table does not know, or knows as
/// informational only, changes no part of the state when it is decoded
/// and merged.
pub proof fn lemma_unrecognized_item_keeps_state(s: SongStateView, it: ItemView, now: u64)
    requires
        field_kind(it.type_code, it.field_code) == FieldKind::Unrecognized || field_kind(
            it.type_code,
            it.field_code,
        ) == FieldKind::Informational,
    ensures
        merged(s, update_of(seq![it]), now) == s,
{
    let items = seq![it];
    assert(items.drop_last() =~= Seq::<ItemView>::empty());
    assert(update_of(Seq::<ItemView>::empty()) == empty_update());
    assert(items.last() == it);
    assert(update_of(items) == updated_by(empty_update(), it));
    assert(update_of(seq![it]) == empty_update());
    lemma_empty_update_keeps_state(s, now);
}

/// Where an update carries a genre, the merge takes the genre alone:
/// title, album, artist and album art stay as they were, even where the
/// update carries them too.
pub proof fn lemma_genre_takes_precedence(s: SongStateView, u: SongDataView, now: u64)
    requires
        u.genre.len() > 0,
    ensures
        merged(s, u, now).genre == u.genre,
        merged(s, u, now).title == s.title,
        merged(s, u, now).album == s.album,
        merged(s, u, now).artist == s.artist,
        merged(s, u, now).album_art == s.album_art,
{
}

/// After an update that signals a pause, any number of ticks leave the
/// current position where the update left it.
pub proof fn lemma_paused_ticks_keep_position(
    s: SongStateView,
    u: SongDataView,
    now: u64,
    times: Seq<u64>,
)
    requires
        u.playback_status == PlaybackStatus::Paused,
    ensures
        ticked_all(merged(s, u, now).position, times).current == merged(s, u, now).position.current,
        !ticked_all(merged(s, u, now).position, times).is_playing,
    decreases times.len(),
{
    if times.len() > 0 {
        lemma_paused_ticks_keep_position(s, u, now, times.drop_last());
    }
}

/// An update whose progress text is not a `start/current/end` triple, and
/// which signals no pause, leaves the position as it was.
pub proof fn lemma_malformed_progress_keeps_position(s: SongStateView, u: SongDataView, now: u64)
    requires
        progress_of(u.progress) is None,
        u.playback_status != PlaybackStatus::Paused,
    ensures
        merged(s, u, now).position == s.position,
{
}

/// A title item whose payload is not base64 changes no part of the state
/// when it is decoded and merged: in particular the title stays.
pub proof fn lemma_undecodable_title_keeps_state(s: SongStateView, it: ItemView, now: u64)
    requires
        field_kind(it.type_code, it.field_code) == FieldKind::Title,
        it.payload matches Some(p) && base64_decoded(p) is None,
    ensures
        merged(s, update_of(seq![it]), now) == s,
        merged(s, update_of(seq![it]), now).title == s.title,
{
    let items = seq![it];
    assert(items.drop_last() =~= Seq::<ItemView>::empty());
    assert(update_of(Seq::<ItemView>::empty()) == empty_update());
    assert(items.last() == it);
    assert(update_of(items) == updated_by(empty_update(), it));
    assert(update_of(seq![it]) == empty_update());
    lemma_empty_update_keeps_state(s, now);
}

} // verus!
