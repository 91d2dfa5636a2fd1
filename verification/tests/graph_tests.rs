use pw_splitter::graph::{
    AudioPort, NodeInfo, NodeProps, PortDirection, PortInfo, PortProps, PwLink, PwNode, PwObject,
    PwPort, LinkInfo, extract_audio_sinks, extract_audio_sources, extract_links, extract_ports,
    extract_recording_dests, find_node_by_name, find_source_connections, get_node_name,
    snapshot_links_consistent,
};

fn node(
    id: u32,
    name: Option<&str>,
    desc: Option<&str>,
    app: Option<&str>,
    media: Option<&str>,
    class: Option<&str>,
) -> PwObject {
    PwObject::Node(PwNode {
        id,
        info: Some(NodeInfo {
            state: None,
            props: Some(NodeProps {
                node_name: name.map(|s| s.to_string()),
                node_description: desc.map(|s| s.to_string()),
                application_name: app.map(|s| s.to_string()),
                media_name: media.map(|s| s.to_string()),
                media_class: class.map(|s| s.to_string()),
                object_id: None,
            }),
        }),
    })
}

fn port(id: u32, node_id: u32, name: &str, channel: &str, direction: &str) -> PwObject {
    PwObject::Port(PwPort {
        id,
        info: Some(PortInfo {
            direction: Some(direction.to_string()),
            props: Some(PortProps {
                node_id: Some(node_id),
                port_id: None,
                port_name: Some(name.to_string()),
                audio_channel: Some(channel.to_string()),
                object_id: None,
            }),
        }),
    })
}

fn link(id: u32, onode: u32, oport: u32, inode: u32, iport: u32) -> PwObject {
    PwObject::Link(PwLink {
        id,
        info: Some(LinkInfo {
            output_node_id: onode,
            output_port_id: oport,
            input_node_id: inode,
            input_port_id: iport,
            state: None,
            props: None,
        }),
    })
}

#[test]
fn sources_classified_with_fallbacks() {
    let objects = vec![
        node(1, Some("music"), None, None, None, Some("Stream/Output/Audio")),
        node(2, Some("spk"), None, None, None, Some("Audio/Sink")),
        PwObject::Other,
    ];
    let sources = extract_audio_sources(&objects);
    assert_eq!(sources.len(), 1);
    assert_eq!(sources[0].node_id, 1);
    assert_eq!(sources[0].node_name, "music");
    // application name falls back to the node name, media name to "Audio"
    assert_eq!(sources[0].application_name, "music");
    assert_eq!(sources[0].media_name, "Audio");
}

#[test]
fn dests_classified() {
    let objects = vec![
        node(3, Some("obs"), None, Some("OBS"), Some("cap"), Some("Stream/Input/Audio")),
        node(1, Some("music"), None, None, None, Some("Stream/Output/Audio")),
    ];
    let dests = extract_recording_dests(&objects);
    assert_eq!(dests.len(), 1);
    assert_eq!(dests[0].node_id, 3);
    assert_eq!(dests[0].application_name, "OBS");
    assert_eq!(dests[0].media_name, "cap");
}

#[test]
fn sinks_description_falls_back_to_name() {
    let objects = vec![node(2, Some("spk"), None, None, None, Some("Audio/Sink"))];
    let sinks = extract_audio_sinks(&objects);
    assert_eq!(sinks.len(), 1);
    assert_eq!(sinks[0].description, "spk");
}

#[test]
fn ports_keep_direction_and_channel() {
    let objects = vec![
        port(10, 1, "output_FL", "FL", "output"),
        port(11, 1, "output_FR", "FR", "input"),
        port(12, 1, "bad", "FL", "sideways"),
        PwObject::Port(PwPort { id: 13, info: None }),
    ];
    let ports = extract_ports(&objects);
    assert_eq!(ports.len(), 2);
    assert_eq!(ports[0].direction, PortDirection::Output);
    assert_eq!(ports[1].direction, PortDirection::Input);
    assert_eq!(ports[0].channel, "FL");
}

#[test]
fn links_extracted() {
    let objects = vec![link(50, 1, 10, 2, 20)];
    let links = extract_links(&objects);
    assert_eq!(links.len(), 1);
    assert_eq!(links[0].link_id, 50);
    assert_eq!(links[0].output_node_id, 1);
    assert_eq!(links[0].input_port_id, 20);
}

#[test]
fn node_lookup_by_name_first_match() {
    let objects = vec![
        node(1, Some("dup"), None, None, None, None),
        node(2, Some("dup"), None, None, None, None),
    ];
    assert_eq!(find_node_by_name(&objects, "dup"), Some(1));
    assert_eq!(find_node_by_name(&objects, "absent"), None);
}

#[test]
fn node_name_lookup_by_id() {
    let objects = vec![node(7, Some("seven"), None, None, None, None)];
    assert_eq!(get_node_name(&objects, 7), Some("seven".to_string()));
    assert_eq!(get_node_name(&objects, 8), None);
}

#[test]
fn two_targets_give_two_connections() {
    // A source wired to two distinct targets: exactly two connections, each
    // holding only links that leave the source.
    let objects = vec![
        node(1, Some("S"), None, None, None, Some("Stream/Output/Audio")),
        node(2, Some("D1"), None, None, None, Some("Audio/Sink")),
        link(50, 1, 10, 2, 20),
        link(51, 1, 11, 2, 21),
        link(52, 1, 10, 3, 30),
        link(53, 9, 90, 2, 20),
    ];
    let conns = find_source_connections(1, &objects);
    assert_eq!(conns.len(), 2);
    assert_eq!(conns[0].source_node_id, 1);
    assert_eq!(conns[0].target_node_id, 2);
    assert_eq!(conns[0].target_node_name, "D1");
    assert_eq!(conns[0].links.len(), 2);
    assert!(conns[0].links.iter().all(|l| l.output_node_id == 1 && l.input_node_id == 2));
    assert_eq!(conns[1].target_node_id, 3);
    assert_eq!(conns[1].links.len(), 1);
    // target 3 has no node, so its name is the placeholder
    assert_eq!(conns[1].target_node_name, "Unknown(3)");
}

#[test]
fn consistent_snapshot_accepted() {
    let objects = vec![
        port(10, 1, "out_FL", "FL", "output"),
        port(20, 2, "in_FL", "FL", "input"),
        link(50, 1, 10, 2, 20),
    ];
    assert!(snapshot_links_consistent(&objects));
}

#[test]
fn inconsistent_snapshot_rejected() {
    // The link claims port 10 belongs to node 1; the port says node 9.
    let objects = vec![
        port(10, 9, "out_FL", "FL", "output"),
        port(20, 2, "in_FL", "FL", "input"),
        link(50, 1, 10, 2, 20),
    ];
    assert!(!snapshot_links_consistent(&objects));
}

#[test]
fn empty_snapshot_is_consistent() {
    let objects: Vec<PwObject> = Vec::new();
    assert!(snapshot_links_consistent(&objects));
}

#[test]
fn unwired_source_has_no_connections() {
    let objects = vec![node(1, Some("S"), None, None, None, Some("Stream/Output/Audio"))];
    assert!(find_source_connections(1, &objects).is_empty());
}

#[test]
fn links_to_unlisted_ports_are_vacuously_consistent() {
    // The check is best-effort over the ports the snapshot shows; a link
    // whose ports are not listed contradicts nothing.
    let objects = vec![link(50, 1, 10, 2, 20)];
    assert!(snapshot_links_consistent(&objects));
}

#[test]
fn display_and_safe_names() {
    let sources = extract_audio_sources(&vec![node(
        1,
        Some("n"),
        None,
        Some("My App! 2"),
        Some("track"),
        Some("Stream/Output/Audio"),
    )]);
    assert_eq!(sources[0].display_name(), "My App! 2 [track]");
    assert_eq!(sources[0].safe_name(), "MyApp2");
}

#[test]
fn recording_dest_display_name() {
    let dests = extract_recording_dests(&vec![node(
        3,
        Some("n"),
        None,
        Some("OBS"),
        Some("mix"),
        Some("Stream/Input/Audio"),
    )]);
    assert_eq!(dests[0].display_name(), "OBS [mix]");
}

fn direction_of(objects: &Vec<PwObject>, port_id: u32) -> Option<PortDirection> {
    extract_ports(objects).into_iter().find(|p: &AudioPort| p.port_id == port_id).map(|p| p.direction)
}

#[test]
fn port_without_node_id_skipped() {
    let objects = vec![PwObject::Port(PwPort {
        id: 15,
        info: Some(PortInfo {
            direction: Some("input".to_string()),
            props: Some(PortProps {
                node_id: None,
                port_id: None,
                port_name: None,
                audio_channel: None,
                object_id: None,
            }),
        }),
    })];
    assert_eq!(direction_of(&objects, 15), None);
}
