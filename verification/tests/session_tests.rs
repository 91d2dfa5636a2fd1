use pw_splitter::graph::{
    NodeInfo, NodeProps, PortInfo, PortProps, PwLink, PwNode, PwObject, PwPort, LinkInfo,
};
use pw_splitter::session::{App, AppAction, AppState};
use pw_splitter::state::SplitState;

fn node(id: u32, name: &str, class: &str) -> PwObject {
    PwObject::Node(PwNode {
        id,
        info: Some(NodeInfo {
            state: None,
            props: Some(NodeProps {
                node_name: Some(name.to_string()),
                node_description: None,
                application_name: Some(name.to_string()),
                media_name: Some("m".to_string()),
                media_class: Some(class.to_string()),
                object_id: None,
            }),
        }),
    })
}

fn port(id: u32, node_id: u32, name: &str, channel: &str, direction: &str) -> PwObject {
    PwObject::Port(PwPort {
        id,
        info: Some(PortInfo {
            direction: Some(direction.to_string()),
            props: Some(PortProps {
                node_id: Some(node_id),
                port_id: None,
                port_name: Some(name.to_string()),
                audio_channel: Some(channel.to_string()),
                object_id: None,
            }),
        }),
    })
}

fn link(id: u32, onode: u32, oport: u32, inode: u32, iport: u32) -> PwObject {
    PwObject::Link(PwLink {
        id,
        info: Some(LinkInfo {
            output_node_id: onode,
            output_port_id: oport,
            input_node_id: inode,
            input_port_id: iport,
            state: None,
            props: None,
        }),
    })
}

fn wired_snapshot() -> Vec<PwObject> {
    vec![
        node(1, "S", "Stream/Output/Audio"),
        node(2, "D1", "Audio/Sink"),
        node(3, "OBS", "Stream/Input/Audio"),
        port(10, 1, "output_FL", "FL", "output"),
        port(11, 1, "output_FR", "FR", "output"),
        port(20, 2, "playback_FL", "FL", "input"),
        port(21, 2, "playback_FR", "FR", "input"),
        link(50, 1, 10, 2, 20),
        link(51, 1, 11, 2, 21),
    ]
}

#[test]
fn fresh_session_lists_both_sides() {
    let app = App::new(&wired_snapshot());
    assert_eq!(app.state, AppState::SelectSource);
    assert_eq!(app.sources.len(), 1);
    assert_eq!(app.destinations.len(), 1);
    assert!(app.selected_source.is_none());
    assert!(app.active_split.is_none());
}

#[test]
fn cursor_stays_in_range() {
    let objects = vec![
        node(1, "S1", "Stream/Output/Audio"),
        node(4, "S2", "Stream/Output/Audio"),
    ];
    let mut app = App::new(&objects);
    app.select_prev();
    assert_eq!(app.selected_source_idx, 0);
    app.select_next();
    assert_eq!(app.selected_source_idx, 1);
    app.select_next();
    assert_eq!(app.selected_source_idx, 1);
    app.select_prev();
    assert_eq!(app.selected_source_idx, 0);
}

#[test]
fn refresh_clamps_cursors() {
    let objects = vec![
        node(1, "S1", "Stream/Output/Audio"),
        node(4, "S2", "Stream/Output/Audio"),
    ];
    let mut app = App::new(&objects);
    app.select_next();
    assert_eq!(app.selected_source_idx, 1);
    let fewer = vec![node(1, "S1", "Stream/Output/Audio")];
    app.refresh(&fewer);
    assert_eq!(app.sources.len(), 1);
    assert_eq!(app.selected_source_idx, 0);
}

#[test]
fn full_selection_flow_yields_setup_action() {
    let objects = wired_snapshot();
    let mut app = App::new(&objects);
    assert!(app.confirm_selection(&objects).is_none());
    assert_eq!(app.state, AppState::SelectDestination);
    assert_eq!(app.source_connections.len(), 1);
    assert_eq!(app.source_connections[0].links.len(), 2);
    assert!(app.confirm_selection(&objects).is_none());
    assert_eq!(app.state, AppState::Confirm);
    let action = app.confirm_selection(&objects).expect("setup requested");
    match action {
        AppAction::RunSetup(cfg) => {
            assert_eq!(cfg.source.node_id, 1);
            assert_eq!(cfg.recording_dest.node_id, 3);
            assert_eq!(cfg.original_connections.len(), 1);
            assert_eq!(cfg.original_connections[0].target_node_id, 2);
        },
        _ => panic!("expected RunSetup"),
    }
}

#[test]
fn unconnected_source_without_sinks_fails_cleanly() {
    // The source has no connection and the graph has no sink at all: the
    // split cannot be attempted, nothing is spawned, nothing persisted.
    let objects = vec![
        node(1, "S", "Stream/Output/Audio"),
        node(3, "OBS", "Stream/Input/Audio"),
    ];
    let mut app = App::new(&objects);
    assert!(app.confirm_selection(&objects).is_none());
    assert!(app.confirm_selection(&objects).is_none());
    let action = app.confirm_selection(&objects);
    assert!(action.is_none());
    assert_eq!(app.state, AppState::Error("No output sinks available".to_string()));
    assert!(app.active_split.is_none());
}

#[test]
fn unconnected_source_with_sink_gets_default_target() {
    let objects = vec![
        node(1, "S", "Stream/Output/Audio"),
        node(2, "D1", "Audio/Sink"),
        node(3, "OBS", "Stream/Input/Audio"),
    ];
    let mut app = App::new(&objects);
    app.confirm_selection(&objects);
    app.confirm_selection(&objects);
    let action = app.confirm_selection(&objects).expect("setup requested");
    match action {
        AppAction::RunSetup(cfg) => {
            assert_eq!(cfg.original_connections.len(), 1);
            assert_eq!(cfg.original_connections[0].target_node_id, 2);
            assert_eq!(cfg.original_connections[0].target_node_name, "D1");
            assert!(cfg.original_connections[0].links.is_empty());
        },
        _ => panic!("expected RunSetup"),
    }
}

#[test]
fn empty_source_list_reports_status() {
    let objects: Vec<PwObject> = Vec::new();
    let mut app = App::new(&objects);
    assert!(app.confirm_selection(&objects).is_none());
    assert_eq!(app.state, AppState::SelectSource);
    assert_eq!(app.status_message, "No audio sources available");
}

#[test]
fn going_back_drops_the_choice() {
    let objects = wired_snapshot();
    let mut app = App::new(&objects);
    app.confirm_selection(&objects);
    assert_eq!(app.state, AppState::SelectDestination);
    app.go_back();
    assert_eq!(app.state, AppState::SelectSource);
    assert!(app.selected_source.is_none());
    assert!(app.source_connections.is_empty());
}

fn active_app(objects: &Vec<PwObject>) -> (App, SplitState) {
    let mut app = App::new(objects);
    app.confirm_selection(objects);
    app.confirm_selection(objects);
    let action = app.confirm_selection(objects).unwrap();
    let cfg = match action {
        AppAction::RunSetup(cfg) => cfg,
        _ => panic!("expected RunSetup"),
    };
    let names = pw_splitter::lifecycle::setup_names(&cfg.source, &cfg.recording_dest);
    let st = pw_splitter::lifecycle::build_split_state(
        "S_Split".to_string(),
        &cfg,
        &names,
        "D1".to_string(),
        Vec::new(),
        100,
        101,
        0,
    );
    (app, st)
}

#[test]
fn setup_outcome_activates_the_split() {
    let objects = wired_snapshot();
    let (mut app, st) = active_app(&objects);
    app.apply_setup_outcome(Ok(st));
    assert_eq!(app.state, AppState::Active);
    assert!(app.active_split.is_some());
    assert_eq!(app.status_message, "Split active! Adjust volume in pwvucontrol");
}

#[test]
fn setup_failure_reports_the_cause() {
    let objects = wired_snapshot();
    let (mut app, _st) = active_app(&objects);
    app.apply_setup_outcome(Err("spawn failed".to_string()));
    assert_eq!(app.state, AppState::Error("Failed to create split: spawn failed".to_string()));
    assert!(app.active_split.is_none());
}

#[test]
fn active_confirm_requests_teardown() {
    let objects = wired_snapshot();
    let (mut app, st) = active_app(&objects);
    app.apply_setup_outcome(Ok(st));
    let action = app.confirm_selection(&objects).expect("teardown requested");
    match action {
        AppAction::RunTeardown(rec) => assert_eq!(rec.name, "S_Split"),
        _ => panic!("expected RunTeardown"),
    }
    app.apply_teardown_outcome(Ok(()));
    assert_eq!(app.state, AppState::Done);
    assert!(app.active_split.is_none());
    assert_eq!(app.status_message, "Split stopped successfully");
}

#[test]
fn teardown_failure_keeps_the_split() {
    let objects = wired_snapshot();
    let (mut app, st) = active_app(&objects);
    app.apply_setup_outcome(Ok(st));
    app.apply_teardown_outcome(Err("record busy".to_string()));
    assert_eq!(app.state, AppState::Active);
    assert!(app.active_split.is_some());
    assert_eq!(app.status_message, "Failed to stop split: record busy");
}

#[test]
fn health_check_needs_an_active_split() {
    let objects = wired_snapshot();
    let mut app = App::new(&objects);
    assert!(app.check_and_restart_loopbacks(false, false).is_none());
    let (mut app2, st) = active_app(&objects);
    app2.apply_setup_outcome(Ok(st));
    let plan = app2.check_and_restart_loopbacks(false, true).expect("plan");
    assert!(plan.respawn_recording && plan.rewire_recording);
    assert!(!plan.respawn_local && !plan.rewire_local);
}
