use now_playing::{
    format_time, PlaybackPosition, PlaybackStatus, SongState, CLOCK_RATE, NANOS_PER_SECOND,
};

fn record(code_hex: &str, data: Option<&str>) -> String {
    match data {
        Some(d) => format!(
            "<item><type>73736e63</type><code>{}</code><length>{}</length><data encoding=\"base64\">{}</data></item>",
            code_hex,
            d.len(),
            d
        ),
        None => format!(
            "<item><type>73736e63</type><code>{}</code><length>0</length></item>",
            code_hex
        ),
    }
}

#[test]
fn one_second_tick_clamps_to_end() {
    let mut state = SongState::new(0);
    state.ingest_record(&record("70726772", Some("MTAwMC8yMDAwLzUwMDA=")), 1_000);
    assert!(state.position.is_playing);
    assert_eq!(state.position.last_sample_time, 1_000);
    state.tick(1_000 + NANOS_PER_SECOND);
    assert_eq!(state.position.current, 5000);
    assert_eq!(state.position.last_sample_time, 1_000 + NANOS_PER_SECOND);
}

#[test]
fn one_second_tick_advances_by_clock_rate() {
    let mut pos = PlaybackPosition::new(0);
    pos.restart(1000, 2000, 10_000_000, 0);
    pos.tick(NANOS_PER_SECOND);
    assert_eq!(pos.current, 2000 + CLOCK_RATE);
    pos.tick(NANOS_PER_SECOND + NANOS_PER_SECOND / 2);
    assert_eq!(pos.current, 2000 + CLOCK_RATE + CLOCK_RATE / 2);
}

#[test]
fn tick_with_earlier_time_adds_nothing() {
    let mut pos = PlaybackPosition::new(0);
    pos.restart(0, 10, 100, 500);
    pos.tick(100);
    assert_eq!(pos.current, 10);
    assert_eq!(pos.last_sample_time, 100);
}

#[test]
fn tick_saturates_at_end_for_huge_gaps() {
    let mut pos = PlaybackPosition::new(0);
    pos.restart(0, u64::MAX - 5, u64::MAX, 0);
    pos.tick(u64::MAX);
    assert_eq!(pos.current, u64::MAX);
}

#[test]
fn fraction_is_zero_for_empty_track() {
    for current in [0u64, 7, 5000, u64::MAX] {
        let pos = PlaybackPosition {
            start: 5000,
            current,
            end: 5000,
            last_sample_time: 0,
            is_playing: true,
        };
        let (num, den) = pos.progress_fraction();
        assert_eq!(num, 0);
        assert!(den > 0);
    }
}

#[test]
fn fraction_counts_ticks_from_start() {
    let pos = PlaybackPosition { start: 1000, current: 2000, end: 5000, last_sample_time: 0, is_playing: true };
    assert_eq!(pos.progress_fraction(), (1000, 4000));
    let backwards = PlaybackPosition { start: 5000, current: 2000, end: 1000, last_sample_time: 0, is_playing: true };
    assert_eq!(backwards.progress_fraction(), (0, 1));
}

#[test]
fn paused_signal_freezes_position_over_ticks() {
    let mut state = SongState::new(0);
    state.ingest_record(&record("70726772", Some("MTAwMC8yMDAwLzUwMDA=")), 0);
    state.ingest_record(&record("70617573", None), 10);
    assert!(!state.position.is_playing);
    assert_eq!(state.playback_status, PlaybackStatus::Paused);
    let frozen = state.position.current;
    for n in 1..=25u64 {
        state.tick(n * NANOS_PER_SECOND);
        assert_eq!(state.position.current, frozen);
    }
    assert_eq!(state.position.last_sample_time, 25 * NANOS_PER_SECOND);
}

#[test]
fn playing_signal_alone_does_not_restart() {
    let mut state = SongState::new(0);
    state.ingest_record(&record("70617573", None), 0);
    state.ingest_record(&record("70726573", None), 0);
    assert_eq!(state.playback_status, PlaybackStatus::Playing);
    assert!(!state.position.is_playing);
}

#[test]
fn seconds_for_display() {
    let pos = PlaybackPosition {
        start: 44100,
        current: 44100 * 126 + 44099,
        end: 44100 * 241,
        last_sample_time: 0,
        is_playing: true,
    };
    assert_eq!(pos.elapsed_seconds(), 125);
    assert_eq!(pos.duration_seconds(), 240);
    assert_eq!(pos.remaining_seconds(), 114);
    assert_eq!(format_time(pos.elapsed_seconds()), "02:05");
    assert_eq!(format_time(pos.remaining_seconds()), "01:54");
    let over = PlaybackPosition { start: 0, current: 100, end: 50, last_sample_time: 0, is_playing: false };
    assert_eq!(over.remaining_seconds(), 0);
    let huge = PlaybackPosition { start: 0, current: u64::MAX, end: u64::MAX, last_sample_time: 0, is_playing: false };
    assert_eq!(huge.elapsed_seconds(), u32::MAX);
}

#[test]
fn format_time_examples() {
    assert_eq!(format_time(125), "02:05");
    assert_eq!(format_time(59), "00:59");
    assert_eq!(format_time(0), "00:00");
    assert_eq!(format_time(600), "10:00");
    assert_eq!(format_time(6000), "100:00");
    assert_eq!(format_time(u32::MAX), "71582788:15");
}
