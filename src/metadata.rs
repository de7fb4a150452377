use vstd::prelude::*;

use crate::codec::{decode_payload_text, decode_payload_u32, payload_text, payload_u32};
use crate::envelope::{parse_items, record_items, ItemView, MetadataItem};

verus! {

/// The namespace of track metadata: `core`.
pub const CORE: u32 = 0x636F7265;

/// The namespace of session-control signals: `ssnc`.
pub const SESSION_CONTROL: u32 = 0x73736E63;

/// The play state that session-control signals announce.
#[derive(Clone, Copy, Debug, PartialEq, Eq, Structural)]
pub enum PlaybackStatus {
    Playing,
    Paused,
    Unknown,
}

/// What a `(type, code)` pair stands for.
#[derive(Clone, Copy, Debug, PartialEq, Eq, Structural)]
pub enum FieldKind {
    Title,
    Album,
    Artist,
    Genre,
    /// The track length in milliseconds, four bytes big-endian.
    TrackLength,
    /// URL, comment, composer, kind or sort name: known, never stored.
    Informational,
    /// Album art, kept as its base64 text.
    AlbumArt,
    /// The position triple `start/current/end`.
    Progress,
    PausedSignal,
    PlayingSignal,
    Unrecognized,
}

/// The table of recognised `(type, code)` pairs.
pub open spec fn field_kind(type_code: u32, field_code: u32) -> FieldKind {
    if type_code == CORE {
        match field_code {
            0x6D696E6D => FieldKind::Title,
            0x6173616C => FieldKind::Album,
            0x61736172 => FieldKind::Artist,
            0x6173676E => FieldKind::Genre,
            0x6173746D => FieldKind::TrackLength,
            0x6173756C | 0x6173636D | 0x61736370 | 0x6173646B | 0x6173736E => FieldKind::Informational,
            _ => FieldKind::Unrecognized,
        }
    } else if type_code == SESSION_CONTROL {
        match field_code {
            0x50494354 => FieldKind::AlbumArt,
            0x70726772 => FieldKind::Progress,
            0x70617573 | 0x70656E64 => FieldKind::PausedSignal,
            0x70726573 | 0x70626567 | 0x7072736D => FieldKind::PlayingSignal,
            _ => FieldKind::Unrecognized,
        }
    } else {
        FieldKind::Unrecognized
    }
}

/// Looks a `(type, code)` pair up in the table of recognised fields.
pub fn classify(type_code: u32, field_code: u32) -> (r: FieldKind)
    ensures
        r == field_kind(type_code, field_code),
{
    if type_code == CORE {
        match field_code {
            0x6D696E6D => FieldKind::Title,
            0x6173616C => FieldKind::Album,
            0x61736172 => FieldKind::Artist,
            0x6173676E => FieldKind::Genre,
            0x6173746D => FieldKind::TrackLength,
            0x6173756C | 0x6173636D | 0x61736370 | 0x6173646B | 0x6173736E => FieldKind::Informational,
            _ => FieldKind::Unrecognized,
        }
    } else if type_code == SESSION_CONTROL {
        match field_code {
            0x50494354 => FieldKind::AlbumArt,
            0x70726772 => FieldKind::Progress,
            0x70617573 | 0x70656E64 => FieldKind::PausedSignal,
            0x70726573 | 0x70626567 | 0x7072736D => FieldKind::PlayingSignal,
            _ => FieldKind::Unrecognized,
        }
    } else {
        FieldKind::Unrecognized
    }
}

/// What one record says: each text field is empty where the record gave
/// no usable value for it.
pub struct SongData {
    pub title: String,
    pub album: String,
    pub artist: String,
    pub genre: String,
    /// Album art as base64 text, not decoded.
    pub album_art: String,
    /// Zero where the record gave no track length.
    pub track_length_ms: u32,
    /// The position text `start/current/end`, not parsed.
    pub progress: String,
    pub playback_status: PlaybackStatus,
}

/// The mathematical value of a [`SongData`].
pub struct SongDataView {
    pub title: Seq<char>,
    pub album: Seq<char>,
    pub artist: Seq<char>,
    pub genre: Seq<char>,
    pub album_art: Seq<char>,
    pub track_length_ms: u32,
    pub progress: Seq<char>,
    pub playback_status: PlaybackStatus,
}

impl View for SongData {
    type V = SongDataView;

    open spec fn view(&self) -> SongDataView {
        SongDataView {
            title: self.title@,
            album: self.album@,
            artist: self.artist@,
            genre: self.genre@,
            album_art: self.album_art@,
            track_length_ms: self.track_length_ms,
            progress: self.progress@,
            playback_status: self.playback_status,
        }
    }
}

/// The update that says nothing.
pub open spec fn empty_update() -> SongDataView {
    SongDataView {
        title: Seq::empty(),
        album: Seq::empty(),
        artist: Seq::empty(),
        genre: Seq::empty(),
        album_art: Seq::empty(),
        track_length_ms: 0,
        progress: Seq::empty(),
        playback_status: PlaybackStatus::Unknown,
    }
}

/// `u` after one more item. A field whose payload is missing or does not
/// decode leaves `u` as it was; so does an item outside the table.
pub open spec fn updated_by(u: SongDataView, it: ItemView) -> SongDataView {
    match field_kind(it.type_code, it.field_code) {
        FieldKind::Title => match it.payload {
            Some(p) => match payload_text(p) {
                Some(t) => SongDataView { title: t, ..u },
                None => u,
            },
            None => u,
        },
        FieldKind::Album => match it.payload {
            Some(p) => match payload_text(p) {
                Some(t) => SongDataView { album: t, ..u },
                None => u,
            },
            None => u,
        },
        FieldKind::Artist => match it.payload {
            Some(p) => match payload_text(p) {
                Some(t) => SongDataView { artist: t, ..u },
                None => u,
            },
            None => u,
        },
        FieldKind::Genre => match it.payload {
            Some(p) => match payload_text(p) {
                Some(t) => SongDataView { genre: t, ..u },
                None => u,
            },
            None => u,
        },
        FieldKind::TrackLength => match it.payload {
            Some(p) => match payload_u32(p) {
                Some(n) => SongDataView { track_length_ms: n, ..u },
                None => u,
            },
            None => u,
        },
        FieldKind::AlbumArt => match it.payload {
            Some(p) => SongDataView { album_art: p, ..u },
            None => u,
        },
        FieldKind::Progress => match it.payload {
            Some(p) => match payload_text(p) {
                Some(t) => SongDataView { progress: t, ..u },
                None => u,
            },
            None => u,
        },
        FieldKind::PausedSignal => SongDataView { playback_status: PlaybackStatus::Paused, ..u },
        FieldKind::PlayingSignal => SongDataView { playback_status: PlaybackStatus::Playing, ..u },
        _ => u,
    }
}

/// The update that a sequence of items makes, taken in order.
pub open spec fn update_of(items: Seq<ItemView>) -> SongDataView
    decreases items.len(),
{
    if items.len() == 0 {
        empty_update()
    } else {
        updated_by(update_of(items.drop_last()), items.last())
    }
}

impl SongData {
    /// The update that says nothing.
    pub fn new() -> (r: SongData)
        ensures
            r@ == empty_update(),
    {
        SongData {
            title: String::new(),
            album: String::new(),
            artist: String::new(),
            genre: String::new(),
            album_art: String::new(),
            track_length_ms: 0,
            progress: String::new(),
            playback_status: PlaybackStatus::Unknown,
        }
    }

    /// Folds one item into the update.
    pub fn apply_item(&mut self, item: &MetadataItem)
        ensures
            final(self)@ == updated_by(old(self)@, item@),
    {
        let kind = classify(item.type_code, item.field_code);
        match kind {
            FieldKind::PausedSignal => {
                self.playback_status = PlaybackStatus::Paused;
                return;
            },
            FieldKind::PlayingSignal => {
                self.playback_status = PlaybackStatus::Playing;
                return;
            },
            _ => {},
        }
        let p = match &item.payload {
            Some(p) => p,
            None => return,
        };
        match kind {
            FieldKind::Title => {
                if let Some(t) = decode_payload_text(p.as_str()) {
                    self.title = t;
                }
            },
            FieldKind::Album => {
                if let Some(t) = decode_payload_text(p.as_str()) {
                    self.album = t;
                }
            },
            FieldKind::Artist => {
                if let Some(t) = decode_payload_text(p.as_str()) {
                    self.artist = t;
                }
            },
            FieldKind::Genre => {
                if let Some(t) = decode_payload_text(p.as_str()) {
                    self.genre = t;
                }
            },
            FieldKind::TrackLength => {
                if let Some(n) = decode_payload_u32(p.as_str()) {
                    self.track_length_ms = n;
                }
            },
            FieldKind::AlbumArt => {
                self.album_art = p.clone();
            },
            FieldKind::Progress => {
                if let Some(t) = decode_payload_text(p.as_str()) {
                    self.progress = t;
                }
            },
            _ => {},
        }
    }
}

/// The update that a sequence of items makes, taken in order.
pub fn decode_items(items: &Vec<MetadataItem>) -> (r: SongData)
    ensures
        r@ == update_of(items@.map_values(|it: MetadataItem| it@)),
{
    let mut data = SongData::new();
    let mut i: usize = 0;
    while i < items.len()
        invariant
            i <= items.len(),
            data@ == update_of(items@.take(i as int).map_values(|it: MetadataItem| it@)),
        decreases items.len() - i,
    {
        let ghost before = items@.take(i as int).map_values(|it: MetadataItem| it@);
        data.apply_item(&items[i]);
        i = i + 1;
        let ghost after = items@.take(i as int).map_values(|it: MetadataItem| it@);
        assert(after.drop_last() =~= before);
    }
    assert(items@.take(i as int) =~= items@);
    data
}

/// Decodes one framed record into the update it makes. A record that
/// holds no well-formed item gives the empty update.
pub fn process_xml(xml: &str) -> (r: SongData)
    ensures
        r@ == update_of(record_items(xml@)),
{
    let items = parse_items(xml);
    decode_items(&items)
}

} // verus!
