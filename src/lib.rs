//! Decoding of a now-playing metadata stream and extrapolation of the
//! playback position between updates.
//!
//! Lines of the stream are grouped into records by [`StreamFramer`]; each
//! record is decoded by [`process_xml`] into a [`SongData`] update, which
//! [`SongState::apply_update`] merges into the long-lived state. Between
//! records, [`SongState::tick`] moves the playback position on by the
//! wall-clock time that passed.

mod codec;
mod digits;
mod display;
mod envelope;
mod framer;
mod metadata;
mod position;
mod state;
mod text;

pub use codec::{decode_payload_bytes, decode_payload_text, decode_payload_u32};
pub use digits::{hex_to_u32, lemma_hex_round_trip};
pub use display::{art_exceeds_frame, format_time, truncate_for_display, ART_FRAME_SIZE, DISPLAY_TEXT_LIMIT};
pub use envelope::{parse_items, MetadataItem};
pub use framer::StreamFramer;
pub use metadata::{
    classify, decode_items, process_xml, FieldKind, PlaybackStatus, SongData, CORE,
    SESSION_CONTROL,
};
pub use position::{lemma_ticks_keep_order, parse_progress, PlaybackPosition, CLOCK_RATE, NANOS_PER_SECOND};
pub use state::{
    lemma_genre_takes_precedence, lemma_malformed_progress_keeps_position,
    lemma_paused_ticks_keep_position, lemma_undecodable_title_keeps_state,
    lemma_unrecognized_item_keeps_state, SongState,
};
pub use text::ends_with;
