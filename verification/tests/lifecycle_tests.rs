use pw_splitter::error::PwSplitterError;
use pw_splitter::graph::{AudioSink, AudioSource, RecordingDest, SourceConnection};
use pw_splitter::lifecycle::{
    SplitConfig, apply_local_respawn, apply_recording_respawn, build_split_state,
    find_primary_output, health_check, setup_names, stopped_names, teardown_split,
};
use pw_splitter::state::{SavedLink, SplitState};

fn source() -> AudioSource {
    AudioSource {
        node_id: 1,
        node_name: "S".to_string(),
        application_name: "My Game".to_string(),
        media_name: "track".to_string(),
    }
}

fn dest() -> RecordingDest {
    RecordingDest {
        node_id: 3,
        node_name: "obs".to_string(),
        application_name: "OBS".to_string(),
        media_name: "mix".to_string(),
    }
}

fn conn(target: u32, name: &str) -> SourceConnection {
    SourceConnection {
        source_node_id: 1,
        target_node_id: target,
        target_node_name: name.to_string(),
        links: Vec::new(),
    }
}

fn sink(id: u32, name: &str) -> AudioSink {
    AudioSink { node_id: id, node_name: name.to_string(), description: name.to_string() }
}

#[test]
fn primary_output_prefers_sink_target() {
    let conns = vec![conn(9, "stream"), conn(2, "D1")];
    let sinks = vec![sink(2, "D1")];
    assert_eq!(find_primary_output(&conns, &sinks).unwrap(), 1);
}

#[test]
fn primary_output_falls_back_to_first() {
    let conns = vec![conn(9, "stream"), conn(8, "other")];
    let sinks = vec![sink(2, "D1")];
    assert_eq!(find_primary_output(&conns, &sinks).unwrap(), 0);
}

#[test]
fn no_connection_no_split() {
    let conns: Vec<SourceConnection> = Vec::new();
    let sinks = vec![sink(2, "D1")];
    match find_primary_output(&conns, &sinks) {
        Err(PwSplitterError::NoActiveConnection) => {},
        _ => panic!("expected NoActiveConnection"),
    }
}

#[test]
fn names_derived_from_sanitized_application() {
    let n = setup_names(&source(), &dest());
    assert_eq!(n.base_name, "MyGame_Split");
    assert_eq!(n.recording_loopback_name, "MyGame_to_Recording");
    assert_eq!(n.local_loopback_name, "MyGame_to_Local");
    assert_eq!(n.recording_desc, "My Game -> OBS");
    assert_eq!(n.local_desc, "My Game -> Local");
}

fn sample_record() -> SplitState {
    let names = setup_names(&source(), &dest());
    let config = SplitConfig {
        source: source(),
        recording_dest: dest(),
        original_connections: vec![conn(2, "D1")],
    };
    build_split_state(
        "MyGame_Split".to_string(),
        &config,
        &names,
        "D1".to_string(),
        vec![
            SavedLink {
                output_port: "S:output_FL".to_string(),
                input_port: "D1:playback_FL".to_string(),
            },
            SavedLink {
                output_port: "S:output_FR".to_string(),
                input_port: "D1:playback_FR".to_string(),
            },
        ],
        100,
        101,
        1700000000,
    )
}

#[test]
fn record_built_from_the_setup() {
    let st = sample_record();
    assert_eq!(st.name, "MyGame_Split");
    assert_eq!(st.source_node_id, 1);
    assert_eq!(st.source_application_name, "My Game");
    assert_eq!(st.recording_loopback_name, "MyGame_to_Recording");
    assert_eq!(st.recording_dest_node_id, 3);
    assert_eq!(st.original_output_node_name, "D1");
    assert_eq!(st.original_links.len(), 2);
    assert_eq!(st.loopback_to_recording_pid, 100);
    assert_eq!(st.loopback_to_local_pid, 101);
    assert_eq!(st.created_at, 1700000000);
}

#[test]
fn teardown_plan_lists_exactly_the_severed_pairs() {
    // Teardown reads the record alone: both pids to signal, the exact
    // severed pairs to recreate, the record to remove.
    let st = sample_record();
    let plan = teardown_split(&st);
    assert_eq!(plan.recording_pid, 100);
    assert_eq!(plan.local_pid, 101);
    assert_eq!(plan.record_name, "MyGame_Split");
    assert_eq!(plan.links_to_restore.len(), 2);
    assert_eq!(plan.links_to_restore[0].output_port, "S:output_FL");
    assert_eq!(plan.links_to_restore[0].input_port, "D1:playback_FL");
    assert_eq!(plan.links_to_restore[1].output_port, "S:output_FR");
    assert_eq!(plan.links_to_restore[1].input_port, "D1:playback_FR");
}

#[test]
fn stop_all_reports_only_successes() {
    let mut a = sample_record();
    a.name = "A".to_string();
    let mut b = sample_record();
    b.name = "B".to_string();
    let mut c = sample_record();
    c.name = "C".to_string();
    let names = stopped_names(&vec![a, b, c], &vec![true, false, true]);
    assert_eq!(names, vec!["A".to_string(), "C".to_string()]);
}

#[test]
fn dead_recording_relay_respawned_and_rewired() {
    let p = health_check(false, true);
    assert!(p.respawn_recording);
    assert!(p.rewire_recording);
    assert!(!p.respawn_local);
    assert!(!p.rewire_local);
}

#[test]
fn dead_local_relay_respawned_but_never_rewired() {
    // The observed recovery asymmetry, preserved: the local relay comes
    // back without rewiring.
    let p = health_check(true, false);
    assert!(!p.respawn_recording);
    assert!(!p.rewire_recording);
    assert!(p.respawn_local);
    assert!(!p.rewire_local);
}

#[test]
fn second_health_check_finds_nothing_to_do() {
    // A dead recording relay is respawned and its pid stored; with the new
    // pid live the next check decides nothing.
    let mut st = sample_record();
    let p = health_check(false, true);
    assert!(p.respawn_recording);
    apply_recording_respawn(&mut st, 555);
    assert_eq!(st.loopback_to_recording_pid, 555);
    assert_eq!(st.loopback_to_local_pid, 101);
    assert_eq!(st.name, "MyGame_Split");
    let p2 = health_check(true, true);
    assert!(!p2.respawn_recording && !p2.rewire_recording && !p2.respawn_local && !p2.rewire_local);
}

#[test]
fn local_respawn_updates_only_its_pid() {
    let mut st = sample_record();
    apply_local_respawn(&mut st, 777);
    assert_eq!(st.loopback_to_local_pid, 777);
    assert_eq!(st.loopback_to_recording_pid, 100);
    assert_eq!(st.original_links.len(), 2);
}
