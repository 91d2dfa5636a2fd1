use pw_splitter::error::PwSplitterError;
use pw_splitter::graph::{
    NodeInfo, NodeProps, PortInfo, PortProps, PwLink, PwNode, PwObject, PwPort, LinkInfo,
};
use pw_splitter::routing::{
    create_link_by_id_outcome, create_link_outcome, destroy_link_outcome,
    find_loopback_capture_node, find_loopback_playback_node, get_port_link_name, kept_links,
    plan_connect_loopback_to_recording, plan_connect_loopback_to_sink,
    plan_connect_source_to_loopback, plan_disconnect,
};
use pw_splitter::state::SavedLink;

fn node(id: u32, name: Option<&str>, desc: Option<&str>, class: Option<&str>) -> PwObject {
    PwObject::Node(PwNode {
        id,
        info: Some(NodeInfo {
            state: None,
            props: Some(NodeProps {
                node_name: name.map(|s| s.to_string()),
                node_description: desc.map(|s| s.to_string()),
                application_name: None,
                media_name: None,
                media_class: class.map(|s| s.to_string()),
                object_id: None,
            }),
        }),
    })
}

fn port(id: u32, node_id: u32, name: &str, channel: &str, direction: &str) -> PwObject {
    PwObject::Port(PwPort {
        id,
        info: Some(PortInfo {
            direction: Some(direction.to_string()),
            props: Some(PortProps {
                node_id: Some(node_id),
                port_id: None,
                port_name: Some(name.to_string()),
                audio_channel: Some(channel.to_string()),
                object_id: None,
            }),
        }),
    })
}

fn link(id: u32, onode: u32, oport: u32, inode: u32, iport: u32) -> PwObject {
    PwObject::Link(PwLink {
        id,
        info: Some(LinkInfo {
            output_node_id: onode,
            output_port_id: oport,
            input_node_id: inode,
            input_port_id: iport,
            state: None,
            props: None,
        }),
    })
}

#[test]
fn port_address_form() {
    assert_eq!(get_port_link_name("S", "output_FL"), "S:output_FL");
}

#[test]
fn relinking_is_benign() {
    // First attempt goes through; the second fails with the server's
    // "already connected" text and still counts as success.
    assert!(create_link_outcome(true, "").is_ok());
    assert!(create_link_outcome(false, "failed to link ports: File exists").is_ok());
}

#[test]
fn real_link_failure_surfaces() {
    let r = create_link_outcome(false, "no permission");
    match r {
        Err(PwSplitterError::LinkCreationFailed(m)) => assert_eq!(m, "no permission"),
        _ => panic!("expected LinkCreationFailed"),
    }
}

#[test]
fn unlinking_nonexistent_is_benign() {
    assert!(destroy_link_outcome(true, "").is_ok());
    assert!(destroy_link_outcome(false, "No such file or directory").is_ok());
    assert!(destroy_link_outcome(false, "").is_ok());
}

#[test]
fn real_unlink_failure_surfaces() {
    let r = destroy_link_outcome(false, "denied");
    match r {
        Err(PwSplitterError::LinkDestroyFailed(m)) => assert_eq!(m, "denied"),
        _ => panic!("expected LinkDestroyFailed"),
    }
}

#[test]
fn id_link_failure_names_the_pair() {
    let r = create_link_by_id_outcome(false, "bad", "S:output_FL", 42);
    match r {
        Err(PwSplitterError::LinkCreationFailed(m)) => {
            assert_eq!(m, "Failed to link S:output_FL -> 42: bad");
        },
        _ => panic!("expected LinkCreationFailed"),
    }
    assert!(create_link_by_id_outcome(false, "File exists", "S:output_FL", 42).is_ok());
}

#[test]
fn disconnect_plan_pairs_channels() {
    let objects = vec![
        node(1, Some("S"), None, Some("Stream/Output/Audio")),
        node(2, Some("D1"), None, Some("Audio/Sink")),
        port(10, 1, "output_FL", "FL", "output"),
        port(11, 1, "output_FR", "FR", "output"),
        port(20, 2, "playback_FL", "FL", "input"),
        port(21, 2, "playback_FR", "FR", "input"),
        link(50, 1, 10, 2, 20),
        link(51, 1, 11, 2, 21),
    ];
    let pairs = plan_disconnect(1, 2, &objects).expect("both names resolve");
    assert_eq!(pairs.len(), 2);
    assert_eq!(pairs[0].output_port, "S:output_FL");
    assert_eq!(pairs[0].input_port, "D1:playback_FL");
    assert_eq!(pairs[1].output_port, "S:output_FR");
    assert_eq!(pairs[1].input_port, "D1:playback_FR");
}

#[test]
fn disconnect_plan_skips_unresolvable_names() {
    let objects = vec![node(1, Some("S"), None, None)];
    assert!(plan_disconnect(1, 2, &objects).is_none());
}

#[test]
fn disconnect_plan_ignores_other_channels() {
    let objects = vec![
        node(1, Some("S"), None, None),
        node(2, Some("D1"), None, None),
        port(10, 1, "output_FL", "FL", "output"),
        port(12, 1, "output_LFE", "LFE", "output"),
        port(20, 2, "playback_FL", "FL", "input"),
        port(22, 2, "playback_LFE", "LFE", "input"),
    ];
    let pairs = plan_disconnect(1, 2, &objects).unwrap();
    assert_eq!(pairs.len(), 1);
    assert_eq!(pairs[0].output_port, "S:output_FL");
}

#[test]
fn capture_half_found_by_description() {
    let objects = vec![
        node(5, Some("Game_to_Recording"), Some("Game -> OBS input"), None),
        node(6, Some("Game_to_Recording"), Some("Game -> OBS output"), None),
    ];
    assert_eq!(find_loopback_capture_node(&objects, "Game -> OBS"), Some(5));
    assert_eq!(find_loopback_playback_node(&objects, "Game -> OBS"), Some(6));
}

#[test]
fn capture_half_falls_back_to_port_direction() {
    // No description matches; the node named after the relay that owns an
    // input port is the capture half.
    let objects = vec![
        node(5, Some("Game_to_Recording"), None, None),
        node(6, Some("Game_to_Recording_out"), None, None),
        port(60, 6, "output_FL", "FL", "output"),
        port(50, 5, "input_FL", "FL", "input"),
    ];
    assert_eq!(find_loopback_capture_node(&objects, "Game_to_Recording"), Some(5));
    assert_eq!(find_loopback_playback_node(&objects, "Game_to_Recording"), Some(6));
}

#[test]
fn capture_half_absent() {
    let objects = vec![node(5, Some("other"), None, None)];
    assert_eq!(find_loopback_capture_node(&objects, "Game_to_Recording"), None);
}

#[test]
fn source_to_loopback_plan() {
    let objects = vec![
        node(1, Some("S"), None, Some("Stream/Output/Audio")),
        node(5, Some("Game_to_Recording"), Some("Game -> OBS input"), None),
        port(10, 1, "output_FL", "FL", "output"),
        port(11, 1, "output_FR", "FR", "output"),
        port(50, 5, "input_FL", "FL", "input"),
        port(51, 5, "input_FR", "FR", "input"),
    ];
    let pairs = plan_connect_source_to_loopback(1, "Game -> OBS", &objects).unwrap();
    assert_eq!(pairs.len(), 2);
    assert_eq!(pairs[0].output_port, "S:output_FL");
    assert_eq!(pairs[0].input_port, "Game_to_Recording:input_FL");
}

#[test]
fn source_to_loopback_missing_capture() {
    let objects = vec![node(1, Some("S"), None, None)];
    match plan_connect_source_to_loopback(1, "Game", &objects) {
        Err(PwSplitterError::NodeNotFound(m)) => assert_eq!(m, "loopback capture Game"),
        _ => panic!("expected NodeNotFound"),
    }
}

#[test]
fn source_to_loopback_missing_ports() {
    let objects = vec![
        node(1, Some("S"), None, None),
        node(5, Some("lb"), Some("Game input"), None),
        port(50, 5, "input_FL", "FL", "input"),
    ];
    match plan_connect_source_to_loopback(1, "Game", &objects) {
        Err(PwSplitterError::LinkCreationFailed(m)) => {
            assert_eq!(m, "Could not find ports: source=0, loopback=1");
        },
        _ => panic!("expected LinkCreationFailed"),
    }
}

#[test]
fn recording_plan_addresses_inputs_by_id() {
    // Two recorder instances share one node name: addressing the input side
    // by port id keeps the plan unambiguous.
    let objects = vec![
        node(3, Some("OBS"), None, Some("Stream/Input/Audio")),
        node(4, Some("OBS"), None, Some("Stream/Input/Audio")),
        node(6, Some("Game_to_Recording"), None, None),
        port(60, 6, "output_FL", "FL", "output"),
        port(61, 6, "output_FR", "FR", "output"),
        port(30, 3, "input_FL", "FL", "input"),
        port(31, 3, "input_FR", "FR", "input"),
        port(40, 4, "input_FL", "FL", "input"),
        port(41, 4, "input_FR", "FR", "input"),
    ];
    let pairs = plan_connect_loopback_to_recording("Game_to_Recording", 4, &objects).unwrap();
    assert_eq!(pairs.len(), 2);
    assert_eq!(pairs[0].output_port, "Game_to_Recording:output_FL");
    assert_eq!(pairs[0].input_port_id, 40);
    assert_eq!(pairs[1].input_port_id, 41);
}

#[test]
fn recording_plan_missing_ports_message() {
    let objects = vec![node(3, Some("OBS"), None, None)];
    match plan_connect_loopback_to_recording("lb", 3, &objects) {
        Err(PwSplitterError::LinkCreationFailed(m)) => {
            assert_eq!(m, "Could not find ports for loopback (0 ports) or destination node 3 (0 ports)");
        },
        _ => panic!("expected LinkCreationFailed"),
    }
}

#[test]
fn sink_plan_uses_sink_name() {
    let objects = vec![
        node(6, Some("Game_to_Local"), Some("Game -> Local output"), None),
        node(2, Some("D1"), None, Some("Audio/Sink")),
        port(60, 6, "output_FL", "FL", "output"),
        port(20, 2, "playback_FL", "FL", "input"),
    ];
    let pairs = plan_connect_loopback_to_sink("Game -> Local", "D1", &objects).unwrap();
    assert_eq!(pairs.len(), 1);
    assert_eq!(pairs[0].output_port, "Game_to_Local:output_FL");
    assert_eq!(pairs[0].input_port, "D1:playback_FL");
}

#[test]
fn sink_plan_unknown_sink() {
    let objects = vec![node(6, Some("lb"), Some("x output"), None)];
    match plan_connect_loopback_to_sink("x", "nope", &objects) {
        Err(PwSplitterError::NodeNotFound(m)) => assert_eq!(m, "nope"),
        _ => panic!("expected NodeNotFound"),
    }
}

#[test]
fn kept_links_filters_by_outcome() {
    let pairs = vec![
        SavedLink { output_port: "a:1".to_string(), input_port: "b:1".to_string() },
        SavedLink { output_port: "a:2".to_string(), input_port: "b:2".to_string() },
    ];
    let kept = kept_links(&pairs, &vec![true, false]);
    assert_eq!(kept.len(), 1);
    assert_eq!(kept[0].output_port, "a:1");
}
