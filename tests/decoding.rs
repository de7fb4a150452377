use now_playing::{
    classify, decode_payload_bytes, decode_payload_text, decode_payload_u32, hex_to_u32,
    parse_items, parse_progress, process_xml, FieldKind, PlaybackStatus, SongState,
};

fn item(type_hex: &str, code_hex: &str, data: Option<&str>) -> String {
    let length = data.map(|d| d.len()).unwrap_or(0);
    match data {
        Some(d) => format!(
            "<item><type>{}</type><code>{}</code><length>{}</length><data encoding=\"base64\">{}</data></item>",
            type_hex, code_hex, length, d
        ),
        None => format!(
            "<item><type>{}</type><code>{}</code><length>0</length></item>",
            type_hex, code_hex
        ),
    }
}

#[test]
fn hex_round_trip_of_tags() {
    for v in [0u32, 1, 0x636F7265, 0x73736E63, 0xFFFF_FFFF, 0x0000_00FF, 0x8000_0000] {
        let lower = format!("{:08x}", v);
        let upper = format!("{:08X}", v);
        assert_eq!(hex_to_u32(&lower), Some(v));
        assert_eq!(hex_to_u32(&upper), Some(v));
    }
}

#[test]
fn hex_rejects_bad_digits_and_overflow() {
    assert_eq!(hex_to_u32(""), None);
    assert_eq!(hex_to_u32("636f726g"), None);
    assert_eq!(hex_to_u32("1ffffffff"), None);
    assert_eq!(hex_to_u32(" 636f7265"), None);
    assert_eq!(hex_to_u32("000000001"), Some(1));
}

#[test]
fn field_table() {
    assert_eq!(classify(0x636F7265, 0x6D696E6D), FieldKind::Title);
    assert_eq!(classify(0x636F7265, 0x6173676E), FieldKind::Genre);
    assert_eq!(classify(0x636F7265, 0x6173746D), FieldKind::TrackLength);
    assert_eq!(classify(0x636F7265, 0x6173756C), FieldKind::Informational);
    assert_eq!(classify(0x73736E63, 0x50494354), FieldKind::AlbumArt);
    assert_eq!(classify(0x73736E63, 1886545778), FieldKind::Progress);
    assert_eq!(classify(0x73736E63, 1885435251), FieldKind::PausedSignal);
    assert_eq!(classify(0x73736E63, 1885695588), FieldKind::PausedSignal);
    assert_eq!(classify(0x73736E63, 1886545267), FieldKind::PlayingSignal);
    assert_eq!(classify(0x73736E63, 1885496679), FieldKind::PlayingSignal);
    assert_eq!(classify(0x73736E63, 1886548845), FieldKind::PlayingSignal);
    assert_eq!(classify(0x73736E63, 0x6D696E6D), FieldKind::Unrecognized);
    assert_eq!(classify(0x12345678, 0x6D696E6D), FieldKind::Unrecognized);
}

#[test]
fn payload_decoders() {
    assert_eq!(decode_payload_text("SGVsbG8="), Some("Hello".to_string()));
    assert_eq!(decode_payload_text("!!!!"), None);
    assert_eq!(decode_payload_text("//4="), None);
    assert_eq!(decode_payload_bytes("YWJj"), Some(vec![b'a', b'b', b'c']));
    assert_eq!(decode_payload_u32("AAOpgA=="), Some(240000));
    assert_eq!(decode_payload_u32("YWJj"), None);
}

#[test]
fn parse_items_reads_every_item() {
    let record = format!(
        "<items>{}{}</items>",
        item("636f7265", "6d696e6d", Some("SGVsbG8=")),
        item("73736e63", "70617573", None)
    );
    let items = parse_items(&record);
    assert_eq!(items.len(), 2);
    assert_eq!(items[0].type_code, 0x636F7265);
    assert_eq!(items[0].field_code, 0x6D696E6D);
    assert_eq!(items[0].length, 8);
    assert_eq!(items[0].payload.as_deref(), Some("SGVsbG8="));
    assert_eq!(items[1].field_code, 0x70617573);
    assert_eq!(items[1].payload, None);
}

#[test]
fn parse_items_skips_bad_tags() {
    let record = format!(
        "{}{}",
        item("zzzz7265", "6d696e6d", Some("SGVsbG8=")),
        item("636f7265", "6173616c", Some("QWxidW0gWA=="))
    );
    let items = parse_items(&record);
    assert_eq!(items.len(), 1);
    assert_eq!(items[0].field_code, 0x6173616C);
}

#[test]
fn malformed_envelope_gives_empty_update() {
    let update = process_xml("<items><item><type>636f7265</type>");
    assert!(update.title.is_empty());
    assert!(update.progress.is_empty());
    assert_eq!(update.track_length_ms, 0);
    assert_eq!(update.playback_status, PlaybackStatus::Unknown);
    assert!(parse_items("not xml at all").is_empty());
}

#[test]
fn process_xml_decodes_fields() {
    let record = format!(
        "{}{}{}{}{}{}",
        item("636f7265", "6d696e6d", Some("U29uZw==")),
        item("636f7265", "6173616c", Some("QWxidW0gWA==")),
        item("636f7265", "61736172", Some("QXJ0aXN0IFk=")),
        item("636f7265", "6173746d", Some("AAOpgA==")),
        item("73736e63", "50494354", Some("YWJj")),
        item("73736e63", "70726772", Some("MTAwMC8yMDAwLzUwMDA="))
    );
    let update = process_xml(&record);
    assert_eq!(update.title, "Song");
    assert_eq!(update.album, "Album X");
    assert_eq!(update.artist, "Artist Y");
    assert_eq!(update.track_length_ms, 240000);
    assert_eq!(update.album_art, "YWJj");
    assert_eq!(update.progress, "1000/2000/5000");
    assert!(update.genre.is_empty());
}

#[test]
fn status_signals() {
    let paused = process_xml(&item("73736e63", "70656e64", None));
    assert_eq!(paused.playback_status, PlaybackStatus::Paused);
    let playing = process_xml(&item("73736e63", "7072736d", None));
    assert_eq!(playing.playback_status, PlaybackStatus::Playing);
    let last_wins = process_xml(&format!(
        "{}{}",
        item("73736e63", "70626567", None),
        item("73736e63", "70617573", None)
    ));
    assert_eq!(last_wins.playback_status, PlaybackStatus::Paused);
}

#[test]
fn unrecognized_item_leaves_state_unchanged() {
    let mut state = SongState::new(0);
    state.ingest_record(&item("636f7265", "6d696e6d", Some("SGVsbG8=")), 0);
    let before_title = state.title.clone();
    let before_position = state.position;
    state.ingest_record(&item("636f7265", "61626364", Some("U29uZw==")), 10);
    state.ingest_record(&item("11223344", "6d696e6d", Some("U29uZw==")), 20);
    assert_eq!(state.title, before_title);
    assert_eq!(state.position, before_position);
    assert_eq!(state.playback_status, PlaybackStatus::Unknown);
}

#[test]
fn genre_takes_precedence_over_title() {
    let mut state = SongState::new(0);
    state.title = "Old title".to_string();
    let record = format!(
        "{}{}",
        item("636f7265", "6d696e6d", Some("U29uZw==")),
        item("636f7265", "6173676e", Some("Um9jaw=="))
    );
    state.ingest_record(&record, 0);
    assert_eq!(state.genre, "Rock");
    assert_eq!(state.title, "Old title");
}

#[test]
fn merge_order_title_before_album() {
    let mut state = SongState::new(0);
    let record = format!(
        "{}{}",
        item("636f7265", "6173616c", Some("QWxidW0gWA==")),
        item("636f7265", "6d696e6d", Some("U29uZw=="))
    );
    state.ingest_record(&record, 0);
    assert_eq!(state.title, "Song");
    assert!(state.album.is_empty());
}

#[test]
fn undecodable_title_keeps_prior_title() {
    let mut state = SongState::new(0);
    state.ingest_record(&item("636f7265", "6d696e6d", Some("SGVsbG8=")), 0);
    assert_eq!(state.title, "Hello");
    state.ingest_record(&item("636f7265", "6d696e6d", Some("%%%%not-base64")), 5);
    assert_eq!(state.title, "Hello");
    state.ingest_record(&item("636f7265", "6d696e6d", Some("//4=")), 6);
    assert_eq!(state.title, "Hello");
}

#[test]
fn track_length_is_kept() {
    let mut state = SongState::new(0);
    state.ingest_record(&item("636f7265", "6173746d", Some("AAOpgA==")), 0);
    assert_eq!(state.track_length_ms, 240000);
    state.ingest_record(&item("636f7265", "6173746d", Some("YWJj")), 0);
    assert_eq!(state.track_length_ms, 240000);
}

#[test]
fn progress_text_parsing() {
    assert_eq!(parse_progress("1000/2000/5000"), Some((1000, 2000, 5000)));
    assert_eq!(parse_progress("10/20"), None);
    assert_eq!(parse_progress("1/2/3/4"), None);
    assert_eq!(parse_progress("1//3"), None);
    assert_eq!(parse_progress("a/2/3"), None);
    assert_eq!(parse_progress(""), None);
    assert_eq!(
        parse_progress("18446744073709551615/0/18446744073709551615"),
        Some((u64::MAX, 0, u64::MAX))
    );
    assert_eq!(parse_progress("18446744073709551616/0/1"), None);
}

#[test]
fn progress_parts_take_one_plus_sign() {
    assert_eq!(parse_progress("+1/2/3"), Some((1, 2, 3)));
    assert_eq!(parse_progress("+1/+2/+3"), Some((1, 2, 3)));
    assert_eq!(parse_progress("+/2/3"), None);
    assert_eq!(parse_progress("++1/2/3"), None);
    assert_eq!(parse_progress("1+/2/3"), None);
    assert_eq!(parse_progress("-1/2/3"), None);
}

#[test]
fn length_takes_one_plus_sign() {
    let items = parse_items("<item><type>636f7265</type><code>6d696e6d</code><length>+5</length></item>");
    assert_eq!(items.len(), 1);
    assert_eq!(items[0].length, 5);
    assert!(parse_items("<item><type>636f7265</type><code>6d696e6d</code><length>+</length></item>").is_empty());
}

#[test]
fn hex_tags_take_no_plus_sign() {
    assert_eq!(hex_to_u32("+636f7265"), None);
}

#[test]
fn element_names_must_match_whole() {
    let record = "<item><types>11111111</types><type>636f7265</type><code>6d696e6d</code>\
                  <length>8</length><database>U29uZw==</database><data encoding=\"base64\">SGVsbG8=</data></item>";
    let items = parse_items(record);
    assert_eq!(items.len(), 1);
    assert_eq!(items[0].type_code, 0x636F7265);
    assert_eq!(items[0].payload.as_deref(), Some("SGVsbG8="));
    assert!(parse_items("<item><typex>636f7265</typex><code>6d696e6d</code><length>0</length></item>").is_empty());
    let spaced = parse_items("<item><type\n>636f7265</type><code\t>6d696e6d</code><length >0</length></item>");
    assert_eq!(spaced.len(), 1);
}

#[test]
fn malformed_progress_leaves_position_untouched() {
    let mut state = SongState::new(0);
    state.ingest_record(&item("73736e63", "70726772", Some("MTAwMC8yMDAwLzUwMDA=")), 100);
    let before = state.position;
    state.ingest_record(&item("73736e63", "70726772", Some("MTAvMjA=")), 200);
    assert_eq!(state.position, before);
    assert_eq!(state.position.start, 1000);
    assert_eq!(state.position.current, 2000);
    assert_eq!(state.position.end, 5000);
}

#[test]
fn album_art_change_is_handed_out_once() {
    let mut state = SongState::new(0);
    assert_eq!(state.take_album_art_change(), None);
    state.ingest_record(&item("73736e63", "50494354", Some("YWJj")), 0);
    assert_eq!(state.album_art, "YWJj");
    assert_eq!(state.take_album_art_change(), Some("YWJj".to_string()));
    assert_eq!(state.take_album_art_change(), None);
}
