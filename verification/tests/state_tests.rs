use pw_splitter::codec::{encode_record, parse_record};
use pw_splitter::state::{SavedLink, SplitState};

fn sample_record() -> SplitState {
    SplitState {
        name: "Game_Split".to_string(),
        source_node_id: 1,
        source_node_name: "S".to_string(),
        source_application_name: "Game".to_string(),
        recording_loopback_name: "Game_to_Recording".to_string(),
        local_loopback_name: "Game_to_Local".to_string(),
        recording_dest_node_id: 3,
        recording_dest_media_name: "mix".to_string(),
        recording_dest_application_name: "OBS".to_string(),
        original_output_node_name: "D1".to_string(),
        original_links: vec![
            SavedLink {
                output_port: "S:output_FL".to_string(),
                input_port: "D1:playback_FL".to_string(),
            },
            SavedLink {
                output_port: "S:output_FR".to_string(),
                input_port: "D1:playback_FR".to_string(),
            },
        ],
        loopback_to_recording_pid: 4242,
        loopback_to_local_pid: 4243,
        created_at: 1700000000,
    }
}

fn assert_records_equal(a: &SplitState, b: &SplitState) {
    assert_eq!(a.name, b.name);
    assert_eq!(a.source_node_id, b.source_node_id);
    assert_eq!(a.source_node_name, b.source_node_name);
    assert_eq!(a.source_application_name, b.source_application_name);
    assert_eq!(a.recording_loopback_name, b.recording_loopback_name);
    assert_eq!(a.local_loopback_name, b.local_loopback_name);
    assert_eq!(a.recording_dest_node_id, b.recording_dest_node_id);
    assert_eq!(a.recording_dest_media_name, b.recording_dest_media_name);
    assert_eq!(a.recording_dest_application_name, b.recording_dest_application_name);
    assert_eq!(a.original_output_node_name, b.original_output_node_name);
    assert_eq!(a.original_links.len(), b.original_links.len());
    for (x, y) in a.original_links.iter().zip(b.original_links.iter()) {
        assert_eq!(x.output_port, y.output_port);
        assert_eq!(x.input_port, y.input_port);
    }
    assert_eq!(a.loopback_to_recording_pid, b.loopback_to_recording_pid);
    assert_eq!(a.loopback_to_local_pid, b.loopback_to_local_pid);
    assert_eq!(a.created_at, b.created_at);
}

#[test]
fn record_round_trip_field_for_field() {
    let rec = sample_record();
    let text = encode_record(&rec);
    let back = parse_record(&text).expect("encoded record parses");
    assert_records_equal(&rec, &back);
}

#[test]
fn record_round_trip_with_hostile_names() {
    // Names may contain the format's own separators, line breaks and
    // non-ASCII characters; length prefixes keep the trip exact.
    let mut rec = sample_record();
    rec.name = "a;b;c".to_string();
    rec.source_node_name = "line\nbreak:and;more".to_string();
    rec.source_application_name = "gr\u{00fc}n \u{1F3B5}".to_string();
    rec.original_links = vec![SavedLink {
        output_port: "42;:x".to_string(),
        input_port: "".to_string(),
    }];
    let text = encode_record(&rec);
    let back = parse_record(&text).expect("encoded record parses");
    assert_records_equal(&rec, &back);
}

#[test]
fn record_round_trip_without_links() {
    let mut rec = sample_record();
    rec.original_links = Vec::new();
    let back = parse_record(&encode_record(&rec)).expect("encoded record parses");
    assert_records_equal(&rec, &back);
}

#[test]
fn record_round_trip_at_the_numeric_limits() {
    let mut rec = sample_record();
    rec.source_node_id = u32::MAX;
    rec.recording_dest_node_id = 0;
    rec.loopback_to_recording_pid = u32::MAX;
    rec.loopback_to_local_pid = 0;
    rec.created_at = u64::MAX;
    let back = parse_record(&encode_record(&rec)).expect("encoded record parses");
    assert_records_equal(&rec, &back);
}

#[test]
fn malformed_records_rejected() {
    assert!(parse_record("").is_none());
    assert!(parse_record("not a record").is_none());
    let text = encode_record(&sample_record());
    // any truncation breaks either a length, a terminator or the final
    // whole-text check
    let shorter: String = text.chars().take(text.chars().count() - 1).collect();
    assert!(parse_record(&shorter).is_none());
    let mut longer = text.clone();
    longer.push('x');
    assert!(parse_record(&longer).is_none());
}

#[test]
fn record_file_path() {
    assert_eq!(
        SplitState::state_file_path("/tmp/pw-splitter", "Game_Split"),
        "/tmp/pw-splitter/Game_Split.json"
    );
}

#[test]
fn name_exists_checks_the_listing() {
    let existing = vec!["A".to_string(), "B".to_string()];
    assert!(SplitState::name_exists("A", &existing));
    assert!(!SplitState::name_exists("C", &existing));
}

#[test]
fn unique_name_free_base_kept() {
    let existing = vec!["Other".to_string()];
    assert_eq!(SplitState::generate_unique_name("X", &existing), "X");
}

#[test]
fn unique_name_two_taken_gives_third() {
    // "X" and "X_1" exist, so the next free candidate is "X_2".
    let existing = vec!["X".to_string(), "X_1".to_string()];
    assert_eq!(SplitState::generate_unique_name("X", &existing), "X_2");
}

#[test]
fn unique_name_counts_past_gaps_in_order() {
    let existing = vec!["X".to_string(), "X_2".to_string()];
    assert_eq!(SplitState::generate_unique_name("X", &existing), "X_1");
}
