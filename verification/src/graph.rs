//! Graph model: typed objects of one routing-graph snapshot and the
//! read-only derivations over them.
//!
//! A snapshot is a sequence of [`PwObject`] values handed in by the caller
//! (the surrounding application obtains them from the audio server's dump
//! facility).  Everything here is pure: classification of nodes into
//! sources, recording destinations and sinks, extraction of ports and
//! links, and the grouping of a source's links into per-target connections.

use vstd::prelude::*;
use vstd::string::StringExecFns;
use vstd::string::StrSliceExecFns;
use crate::text::{str_eq, u64_to_string, spec_dec, push_char, char_is_alphanumeric, spec_char_is_alphanumeric};

verus! {

// ---------------------------------------------------------------------------
// Raw snapshot objects
// ---------------------------------------------------------------------------

/// One object of a graph snapshot.
#[derive(Debug, Clone)]
pub enum PwObject {
    Node(PwNode),
    Port(PwPort),
    Link(PwLink),
    Other,
}

/// A node of the routing graph.
#[derive(Debug, Clone)]
pub struct PwNode {
    pub id: u32,
    pub info: Option<NodeInfo>,
}

#[derive(Debug, Clone)]
pub struct NodeInfo {
    pub state: Option<String>,
    pub props: Option<NodeProps>,
}

#[derive(Debug, Clone)]
pub struct NodeProps {
    pub node_name: Option<String>,
    pub node_description: Option<String>,
    pub application_name: Option<String>,
    pub media_name: Option<String>,
    pub media_class: Option<String>,
    pub object_id: Option<u32>,
}

/// A port of the routing graph.
#[derive(Debug, Clone)]
pub struct PwPort {
    pub id: u32,
    pub info: Option<PortInfo>,
}

#[derive(Debug, Clone)]
pub struct PortInfo {
    pub direction: Option<String>,
    pub props: Option<PortProps>,
}

#[derive(Debug, Clone)]
pub struct PortProps {
    pub node_id: Option<u32>,
    pub port_id: Option<u32>,
    pub port_name: Option<String>,
    pub audio_channel: Option<String>,
    pub object_id: Option<u32>,
}

/// A link of the routing graph.
#[derive(Debug, Clone)]
pub struct PwLink {
    pub id: u32,
    pub info: Option<LinkInfo>,
}

#[derive(Debug, Clone)]
pub struct LinkInfo {
    pub output_node_id: u32,
    pub output_port_id: u32,
    pub input_node_id: u32,
    pub input_port_id: u32,
    pub state: Option<String>,
    pub props: Option<LinkProps>,
}

#[derive(Debug, Clone)]
pub struct LinkProps {
    pub link_output_node: Option<u32>,
    pub link_output_port: Option<u32>,
    pub link_input_node: Option<u32>,
    pub link_input_port: Option<u32>,
}

// ---------------------------------------------------------------------------
// Derived entities
// ---------------------------------------------------------------------------

/// An application producing audio.
#[derive(Debug, Clone)]
pub struct AudioSource {
    pub node_id: u32,
    pub node_name: String,
    pub application_name: String,
    pub media_name: String,
}

/// Mathematical image of an [`AudioSource`].
pub ghost struct AudioSourceV {
    pub node_id: u32,
    pub node_name: Seq<char>,
    pub application_name: Seq<char>,
    pub media_name: Seq<char>,
}

impl View for AudioSource {
    type V = AudioSourceV;

    open spec fn view(&self) -> AudioSourceV {
        AudioSourceV {
            node_id: self.node_id,
            node_name: self.node_name@,
            application_name: self.application_name@,
            media_name: self.media_name@,
        }
    }
}

/// An application capturing audio (a recorder).
#[derive(Debug, Clone)]
pub struct RecordingDest {
    pub node_id: u32,
    pub node_name: String,
    pub application_name: String,
    pub media_name: String,
}

/// Mathematical image of a [`RecordingDest`].
pub ghost struct RecordingDestV {
    pub node_id: u32,
    pub node_name: Seq<char>,
    pub application_name: Seq<char>,
    pub media_name: Seq<char>,
}

impl View for RecordingDest {
    type V = RecordingDestV;

    open spec fn view(&self) -> RecordingDestV {
        RecordingDestV {
            node_id: self.node_id,
            node_name: self.node_name@,
            application_name: self.application_name@,
            media_name: self.media_name@,
        }
    }
}

/// A device endpoint (speakers, headphones).
#[derive(Debug, Clone)]
pub struct AudioSink {
    pub node_id: u32,
    pub node_name: String,
    pub description: String,
}

/// Mathematical image of an [`AudioSink`].
pub ghost struct AudioSinkV {
    pub node_id: u32,
    pub node_name: Seq<char>,
    pub description: Seq<char>,
}

impl View for AudioSink {
    type V = AudioSinkV;

    open spec fn view(&self) -> AudioSinkV {
        AudioSinkV {
            node_id: self.node_id,
            node_name: self.node_name@,
            description: self.description@,
        }
    }
}

/// The direction of a port.
#[derive(Debug, Clone, Copy, PartialEq, Eq, Structural)]
pub enum PortDirection {
    Input,
    Output,
}

/// A channel-level connection point on a node.
#[derive(Debug, Clone)]
pub struct AudioPort {
    pub port_id: u32,
    pub node_id: u32,
    pub port_name: String,
    pub channel: String,
    pub direction: PortDirection,
}

/// Mathematical image of an [`AudioPort`].
pub ghost struct AudioPortV {
    pub port_id: u32,
    pub node_id: u32,
    pub port_name: Seq<char>,
    pub channel: Seq<char>,
    pub direction: PortDirection,
}

impl View for AudioPort {
    type V = AudioPortV;

    open spec fn view(&self) -> AudioPortV {
        AudioPortV {
            port_id: self.port_id,
            node_id: self.node_id,
            port_name: self.port_name@,
            channel: self.channel@,
            direction: self.direction,
        }
    }
}

/// One established channel connection between two ports.
#[derive(Debug, Clone, Copy, PartialEq, Eq, Structural)]
pub struct AudioLink {
    pub link_id: u32,
    pub output_node_id: u32,
    pub output_port_id: u32,
    pub input_node_id: u32,
    pub input_port_id: u32,
}

/// All links from one source node to one target node, the unit operated on
/// by disconnect and reconnect.
#[derive(Debug, Clone)]
pub struct SourceConnection {
    pub source_node_id: u32,
    pub target_node_id: u32,
    pub target_node_name: String,
    pub links: Vec<AudioLink>,
}

/// Mathematical image of a [`SourceConnection`].
pub ghost struct SourceConnectionV {
    pub source_node_id: u32,
    pub target_node_id: u32,
    pub target_node_name: Seq<char>,
    pub links: Seq<AudioLink>,
}

impl View for SourceConnection {
    type V = SourceConnectionV;

    open spec fn view(&self) -> SourceConnectionV {
        SourceConnectionV {
            source_node_id: self.source_node_id,
            target_node_id: self.target_node_id,
            target_node_name: self.target_node_name@,
            links: self.links@,
        }
    }
}

// ---------------------------------------------------------------------------
// Spec-level classification of snapshot objects
// ---------------------------------------------------------------------------

/// Keeps the elements a partial function accepts, in order.
pub open spec fn filter_map<A, B>(s: Seq<A>, f: spec_fn(A) -> Option<B>) -> Seq<B>
    decreases s.len(),
{
    if s.len() == 0 {
        Seq::empty()
    } else {
        let rest = filter_map(s.drop_last(), f);
        match f(s.last()) {
            Some(b) => rest.push(b),
            None => rest,
        }
    }
}

/// Appending one element extends a `filter_map` image by at most that element.
pub proof fn lemma_filter_map_push<A, B>(s: Seq<A>, f: spec_fn(A) -> Option<B>, x: A)
    ensures
        filter_map(s.push(x), f) == (match f(x) {
            Some(b) => filter_map(s, f).push(b),
            None => filter_map(s, f),
        }),
{
    assert(s.push(x).drop_last() =~= s);
    assert(s.push(x).last() == x);
}

/// The string a missing optional name defaults to: the empty string.
pub open spec fn opt_str_view(o: Option<String>) -> Seq<char> {
    match o {
        Some(s) => s@,
        None => Seq::empty(),
    }
}

/// The media class of producers.
pub open spec fn media_class_source() -> Seq<char> {
    "Stream/Output/Audio"@
}

/// The media class of recorders.
pub open spec fn media_class_recording() -> Seq<char> {
    "Stream/Input/Audio"@
}

/// The media class of device endpoints.
pub open spec fn media_class_sink() -> Seq<char> {
    "Audio/Sink"@
}

/// The source a node object classifies as, if any: a node whose media class
/// is the producer class, with the application name falling back to the node
/// name and the media name falling back to `"Audio"`.
pub open spec fn spec_source_of(o: PwObject) -> Option<AudioSourceV> {
    match o {
        PwObject::Node(n) => match n.info {
            Some(info) => match info.props {
                Some(props) => match props.media_class {
                    Some(mc) => if mc@ == media_class_source() {
                        Some(
                            AudioSourceV {
                                node_id: n.id,
                                node_name: opt_str_view(props.node_name),
                                application_name: match props.application_name {
                                    Some(a) => a@,
                                    None => opt_str_view(props.node_name),
                                },
                                media_name: match props.media_name {
                                    Some(m) => m@,
                                    None => "Audio"@,
                                },
                            },
                        )
                    } else {
                        None
                    },
                    None => None,
                },
                None => None,
            },
            None => None,
        },
        _ => None,
    }
}

/// The recording destination a node object classifies as, if any.
pub open spec fn spec_dest_of(o: PwObject) -> Option<RecordingDestV> {
    match o {
        PwObject::Node(n) => match n.info {
            Some(info) => match info.props {
                Some(props) => match props.media_class {
                    Some(mc) => if mc@ == media_class_recording() {
                        Some(
                            RecordingDestV {
                                node_id: n.id,
                                node_name: opt_str_view(props.node_name),
                                application_name: match props.application_name {
                                    Some(a) => a@,
                                    None => opt_str_view(props.node_name),
                                },
                                media_name: match props.media_name {
                                    Some(m) => m@,
                                    None => "Audio"@,
                                },
                            },
                        )
                    } else {
                        None
                    },
                    None => None,
                },
                None => None,
            },
            None => None,
        },
        _ => None,
    }
}

/// The sink a node object classifies as, if any; the description falls back
/// to the node name.
pub open spec fn spec_sink_of(o: PwObject) -> Option<AudioSinkV> {
    match o {
        PwObject::Node(n) => match n.info {
            Some(info) => match info.props {
                Some(props) => match props.media_class {
                    Some(mc) => if mc@ == media_class_sink() {
                        Some(
                            AudioSinkV {
                                node_id: n.id,
                                node_name: opt_str_view(props.node_name),
                                description: match props.node_description {
                                    Some(d) => d@,
                                    None => opt_str_view(props.node_name),
                                },
                            },
                        )
                    } else {
                        None
                    },
                    None => None,
                },
                None => None,
            },
            None => None,
        },
        _ => None,
    }
}

/// The port a port object yields, if any: it must carry a direction of
/// `"input"` or `"output"` and an owning node id.
pub open spec fn spec_port_of(o: PwObject) -> Option<AudioPortV> {
    match o {
        PwObject::Port(p) => match p.info {
            Some(info) => match info.props {
                Some(props) => match info.direction {
                    Some(d) => {
                        let dir = if d@ == "input"@ {
                            Some(PortDirection::Input)
                        } else if d@ == "output"@ {
                            Some(PortDirection::Output)
                        } else {
                            None
                        };
                        match dir {
                            Some(direction) => match props.node_id {
                                Some(node_id) => Some(
                                    AudioPortV {
                                        port_id: p.id,
                                        node_id: node_id,
                                        port_name: opt_str_view(props.port_name),
                                        channel: opt_str_view(props.audio_channel),
                                        direction: direction,
                                    },
                                ),
                                None => None,
                            },
                            None => None,
                        }
                    },
                    None => None,
                },
                None => None,
            },
            None => None,
        },
        _ => None,
    }
}

/// The link a link object yields, if any.
pub open spec fn spec_link_of(o: PwObject) -> Option<AudioLink> {
    match o {
        PwObject::Link(l) => match l.info {
            Some(info) => Some(
                AudioLink {
                    link_id: l.id,
                    output_node_id: info.output_node_id,
                    output_port_id: info.output_port_id,
                    input_node_id: info.input_node_id,
                    input_port_id: info.input_port_id,
                },
            ),
            None => None,
        },
        _ => None,
    }
}

/// All sources of a snapshot, in object order.
pub open spec fn spec_sources(objs: Seq<PwObject>) -> Seq<AudioSourceV> {
    filter_map(objs, |o: PwObject| spec_source_of(o))
}

/// All recording destinations of a snapshot, in object order.
pub open spec fn spec_dests(objs: Seq<PwObject>) -> Seq<RecordingDestV> {
    filter_map(objs, |o: PwObject| spec_dest_of(o))
}

/// All sinks of a snapshot, in object order.
pub open spec fn spec_sinks(objs: Seq<PwObject>) -> Seq<AudioSinkV> {
    filter_map(objs, |o: PwObject| spec_sink_of(o))
}

/// All ports of a snapshot, in object order.
pub open spec fn spec_ports(objs: Seq<PwObject>) -> Seq<AudioPortV> {
    filter_map(objs, |o: PwObject| spec_port_of(o))
}

/// All links of a snapshot, in object order.
pub open spec fn spec_links(objs: Seq<PwObject>) -> Seq<AudioLink> {
    filter_map(objs, |o: PwObject| spec_link_of(o))
}

// ---------------------------------------------------------------------------
// Executable extraction
// ---------------------------------------------------------------------------

fn clone_opt_string_or_empty(o: &Option<String>) -> (r: String)
    ensures
        r@ == opt_str_view(*o),
{
    match o {
        Some(s) => s.clone(),
        None => String::new(),
    }
}

/// Classifies one object as a source, if it is one.
fn source_from_object(o: &PwObject) -> (r: Option<AudioSource>)
    ensures
        (r matches Some(a) ==> spec_source_of(*o) == Some(a@)),
        (r is None ==> spec_source_of(*o) is None),
{
    match o {
        PwObject::Node(n) => match &n.info {
            Some(info) => match &info.props {
                Some(props) => match &props.media_class {
                    Some(mc) => {
                        if str_eq(mc.as_str(), "Stream/Output/Audio") {
                            let node_name = clone_opt_string_or_empty(&props.node_name);
                            let application_name = match &props.application_name {
                                Some(a) => a.clone(),
                                None => clone_opt_string_or_empty(&props.node_name),
                            };
                            let media_name = match &props.media_name {
                                Some(m) => m.clone(),
                                None => String::from_str("Audio"),
                            };
                            Some(
                                AudioSource {
                                    node_id: n.id,
                                    node_name,
                                    application_name,
                                    media_name,
                                },
                            )
                        } else {
                            None
                        }
                    },
                    None => None,
                },
                None => None,
            },
            None => None,
        },
        _ => None,
    }
}

/// Classifies one object as a recording destination, if it is one.
fn dest_from_object(o: &PwObject) -> (r: Option<RecordingDest>)
    ensures
        (r matches Some(a) ==> spec_dest_of(*o) == Some(a@)),
        (r is None ==> spec_dest_of(*o) is None),
{
    match o {
        PwObject::Node(n) => match &n.info {
            Some(info) => match &info.props {
                Some(props) => match &props.media_class {
                    Some(mc) => {
                        if str_eq(mc.as_str(), "Stream/Input/Audio") {
                            let node_name = clone_opt_string_or_empty(&props.node_name);
                            let application_name = match &props.application_name {
                                Some(a) => a.clone(),
                                None => clone_opt_string_or_empty(&props.node_name),
                            };
                            let media_name = match &props.media_name {
                                Some(m) => m.clone(),
                                None => String::from_str("Audio"),
                            };
                            Some(
                                RecordingDest {
                                    node_id: n.id,
                                    node_name,
                                    application_name,
                                    media_name,
                                },
                            )
                        } else {
                            None
                        }
                    },
                    None => None,
                },
                None => None,
            },
            None => None,
        },
        _ => None,
    }
}

/// Classifies one object as a sink, if it is one.
fn sink_from_object(o: &PwObject) -> (r: Option<AudioSink>)
    ensures
        (r matches Some(a) ==> spec_sink_of(*o) == Some(a@)),
        (r is None ==> spec_sink_of(*o) is None),
{
    match o {
        PwObject::Node(n) => match &n.info {
            Some(info) => match &info.props {
                Some(props) => match &props.media_class {
                    Some(mc) => {
                        if str_eq(mc.as_str(), "Audio/Sink") {
                            let node_name = clone_opt_string_or_empty(&props.node_name);
                            let description = match &props.node_description {
                                Some(d) => d.clone(),
                                None => clone_opt_string_or_empty(&props.node_name),
                            };
                            Some(AudioSink { node_id: n.id, node_name, description })
                        } else {
                            None
                        }
                    },
                    None => None,
                },
                None => None,
            },
            None => None,
        },
        _ => None,
    }
}

/// Reads one object as a port, if it is a usable one.
fn port_from_object(o: &PwObject) -> (r: Option<AudioPort>)
    ensures
        (r matches Some(a) ==> spec_port_of(*o) == Some(a@)),
        (r is None ==> spec_port_of(*o) is None),
{
    match o {
        PwObject::Port(p) => match &p.info {
            Some(info) => match &info.props {
                Some(props) => match &info.direction {
                    Some(d) => {
                        let dir: Option<PortDirection> = if str_eq(d.as_str(), "input") {
                            Some(PortDirection::Input)
                        } else if str_eq(d.as_str(), "output") {
                            Some(PortDirection::Output)
                        } else {
                            None
                        };
                        match dir {
                            Some(direction) => match &props.node_id {
                                Some(node_id) => Some(
                                    AudioPort {
                                        port_id: p.id,
                                        node_id: *node_id,
                                        port_name: clone_opt_string_or_empty(&props.port_name),
                                        channel: clone_opt_string_or_empty(&props.audio_channel),
                                        direction,
                                    },
                                ),
                                None => None,
                            },
                            None => None,
                        }
                    },
                    None => None,
                },
                None => None,
            },
            None => None,
        },
        _ => None,
    }
}

/// Reads one object as a link, if it is one.
fn link_from_object(o: &PwObject) -> (r: Option<AudioLink>)
    ensures
        (r matches Some(a) ==> spec_link_of(*o) == Some(a)),
        (r is None ==> spec_link_of(*o) is None),
{
    match o {
        PwObject::Link(l) => match &l.info {
            Some(info) => Some(
                AudioLink {
                    link_id: l.id,
                    output_node_id: info.output_node_id,
                    output_port_id: info.output_port_id,
                    input_node_id: info.input_node_id,
                    input_port_id: info.input_port_id,
                },
            ),
            None => None,
        },
        _ => None,
    }
}

/// All audio producers of a snapshot.
pub fn extract_audio_sources(objects: &Vec<PwObject>) -> (r: Vec<AudioSource>)
    ensures
        r@.map_values(|a: AudioSource| a@) == spec_sources(objects@),
{
    let mut r: Vec<AudioSource> = Vec::new();
    let mut i: usize = 0;
    while i < objects.len()
        invariant
            i <= objects@.len(),
            r@.map_values(|a: AudioSource| a@) =~= spec_sources(objects@.take(i as int)),
        decreases objects@.len() - i,
    {
        let ghost prefix = objects@.take(i as int);
        match source_from_object(&objects[i]) {
            Some(s) => r.push(s),
            None => (),
        }
        proof {
            assert(objects@.take(i + 1 as int) =~= prefix.push(objects@[i as int]));
            lemma_filter_map_push(prefix, |o: PwObject| spec_source_of(o), objects@[i as int]);
        }
        i = i + 1;
    }
    proof {
        assert(objects@.take(objects@.len() as int) =~= objects@);
    }
    r
}

/// All recording destinations of a snapshot.
pub fn extract_recording_dests(objects: &Vec<PwObject>) -> (r: Vec<RecordingDest>)
    ensures
        r@.map_values(|a: RecordingDest| a@) == spec_dests(objects@),
{
    let mut r: Vec<RecordingDest> = Vec::new();
    let mut i: usize = 0;
    while i < objects.len()
        invariant
            i <= objects@.len(),
            r@.map_values(|a: RecordingDest| a@) =~= spec_dests(objects@.take(i as int)),
        decreases objects@.len() - i,
    {
        let ghost prefix = objects@.take(i as int);
        match dest_from_object(&objects[i]) {
            Some(s) => r.push(s),
            None => (),
        }
        proof {
            assert(objects@.take(i + 1 as int) =~= prefix.push(objects@[i as int]));
            lemma_filter_map_push(prefix, |o: PwObject| spec_dest_of(o), objects@[i as int]);
        }
        i = i + 1;
    }
    proof {
        assert(objects@.take(objects@.len() as int) =~= objects@);
    }
    r
}

/// All device endpoints of a snapshot.
pub fn extract_audio_sinks(objects: &Vec<PwObject>) -> (r: Vec<AudioSink>)
    ensures
        r@.map_values(|a: AudioSink| a@) == spec_sinks(objects@),
{
    let mut r: Vec<AudioSink> = Vec::new();
    let mut i: usize = 0;
    while i < objects.len()
        invariant
            i <= objects@.len(),
            r@.map_values(|a: AudioSink| a@) =~= spec_sinks(objects@.take(i as int)),
        decreases objects@.len() - i,
    {
        let ghost prefix = objects@.take(i as int);
        match sink_from_object(&objects[i]) {
            Some(s) => r.push(s),
            None => (),
        }
        proof {
            assert(objects@.take(i + 1 as int) =~= prefix.push(objects@[i as int]));
            lemma_filter_map_push(prefix, |o: PwObject| spec_sink_of(o), objects@[i as int]);
        }
        i = i + 1;
    }
    proof {
        assert(objects@.take(objects@.len() as int) =~= objects@);
    }
    r
}

/// All usable ports of a snapshot.
pub fn extract_ports(objects: &Vec<PwObject>) -> (r: Vec<AudioPort>)
    ensures
        r@.map_values(|a: AudioPort| a@) == spec_ports(objects@),
{
    let mut r: Vec<AudioPort> = Vec::new();
    let mut i: usize = 0;
    while i < objects.len()
        invariant
            i <= objects@.len(),
            r@.map_values(|a: AudioPort| a@) =~= spec_ports(objects@.take(i as int)),
        decreases objects@.len() - i,
    {
        let ghost prefix = objects@.take(i as int);
        match port_from_object(&objects[i]) {
            Some(s) => r.push(s),
            None => (),
        }
        proof {
            assert(objects@.take(i + 1 as int) =~= prefix.push(objects@[i as int]));
            lemma_filter_map_push(prefix, |o: PwObject| spec_port_of(o), objects@[i as int]);
        }
        i = i + 1;
    }
    proof {
        assert(objects@.take(objects@.len() as int) =~= objects@);
    }
    r
}

/// All links of a snapshot.
pub fn extract_links(objects: &Vec<PwObject>) -> (r: Vec<AudioLink>)
    ensures
        r@ == spec_links(objects@),
{
    let mut r: Vec<AudioLink> = Vec::new();
    let mut i: usize = 0;
    while i < objects.len()
        invariant
            i <= objects@.len(),
            r@ =~= spec_links(objects@.take(i as int)),
        decreases objects@.len() - i,
    {
        let ghost prefix = objects@.take(i as int);
        match link_from_object(&objects[i]) {
            Some(s) => r.push(s),
            None => (),
        }
        proof {
            assert(objects@.take(i + 1 as int) =~= prefix.push(objects@[i as int]));
            lemma_filter_map_push(prefix, |o: PwObject| spec_link_of(o), objects@[i as int]);
        }
        i = i + 1;
    }
    proof {
        assert(objects@.take(objects@.len() as int) =~= objects@);
    }
    r
}


// ---------------------------------------------------------------------------
// Node lookups
// ---------------------------------------------------------------------------

/// Whether the object is a node carrying exactly this name.
pub open spec fn spec_node_has_name(o: PwObject, name: Seq<char>) -> bool {
    match o {
        PwObject::Node(n) => match n.info {
            Some(info) => match info.props {
                Some(props) => match props.node_name {
                    Some(s) => s@ == name,
                    None => false,
                },
                None => false,
            },
            None => false,
        },
        _ => false,
    }
}

/// The id of a node object (zero for any other object).
pub open spec fn spec_node_id(o: PwObject) -> u32 {
    match o {
        PwObject::Node(n) => n.id,
        _ => 0,
    }
}

/// The first node carrying this name, if any; names are not unique.
pub open spec fn spec_find_node_by_name(objs: Seq<PwObject>, name: Seq<char>) -> Option<u32>
    decreases objs.len(),
{
    if objs.len() == 0 {
        None
    } else if spec_node_has_name(objs[0], name) {
        Some(spec_node_id(objs[0]))
    } else {
        spec_find_node_by_name(objs.drop_first(), name)
    }
}

/// Looks a node up by name; the first match wins.
pub fn find_node_by_name(objects: &Vec<PwObject>, name: &str) -> (r: Option<u32>)
    ensures
        r == spec_find_node_by_name(objects@, name@),
{
    let mut i: usize = 0;
    proof {
        assert(objects@.skip(0) =~= objects@);
    }
    while i < objects.len()
        invariant
            i <= objects@.len(),
            spec_find_node_by_name(objects@, name@) == spec_find_node_by_name(
                objects@.skip(i as int),
                name@,
            ),
        decreases objects@.len() - i,
    {
        proof {
            assert(objects@.skip(i as int)[0] == objects@[i as int]);
            assert(objects@.skip(i as int).drop_first() =~= objects@.skip(i + 1 as int));
        }
        match &objects[i] {
            PwObject::Node(n) => {
                match &n.info {
                    Some(info) => match &info.props {
                        Some(props) => match &props.node_name {
                            Some(s) => {
                                if str_eq(s.as_str(), name) {
                                    return Some(n.id);
                                }
                            },
                            None => (),
                        },
                        None => (),
                    },
                    None => (),
                }
            },
            _ => (),
        }
        i = i + 1;
    }
    proof {
        assert(objects@.skip(objects@.len() as int) =~= Seq::<PwObject>::empty());
    }
    None
}

/// Whether the object is a node with this id that carries info and props.
pub open spec fn spec_node_with_props(o: PwObject, node_id: u32) -> bool {
    match o {
        PwObject::Node(n) => n.id == node_id && (match n.info {
            Some(info) => info.props is Some,
            None => false,
        }),
        _ => false,
    }
}

/// The optional name stored in a node object's props.
pub open spec fn spec_props_node_name(o: PwObject) -> Option<Seq<char>> {
    match o {
        PwObject::Node(n) => match n.info {
            Some(info) => match info.props {
                Some(props) => match props.node_name {
                    Some(s) => Some(s@),
                    None => None,
                },
                None => None,
            },
            None => None,
        },
        _ => None,
    }
}

/// The name of the first node with this id that carries props; `None` both
/// when no such node exists and when that node has no name.
pub open spec fn spec_get_node_name(objs: Seq<PwObject>, node_id: u32) -> Option<Seq<char>>
    decreases objs.len(),
{
    if objs.len() == 0 {
        None
    } else if spec_node_with_props(objs[0], node_id) {
        spec_props_node_name(objs[0])
    } else {
        spec_get_node_name(objs.drop_first(), node_id)
    }
}

/// Looks a node's name up by id; the first node carrying props wins.
pub fn get_node_name(objects: &Vec<PwObject>, node_id: u32) -> (r: Option<String>)
    ensures
        (r matches Some(s) ==> spec_get_node_name(objects@, node_id) == Some(s@)),
        (r is None ==> spec_get_node_name(objects@, node_id) is None),
{
    let mut i: usize = 0;
    proof {
        assert(objects@.skip(0) =~= objects@);
    }
    while i < objects.len()
        invariant
            i <= objects@.len(),
            spec_get_node_name(objects@, node_id) == spec_get_node_name(
                objects@.skip(i as int),
                node_id,
            ),
        decreases objects@.len() - i,
    {
        proof {
            assert(objects@.skip(i as int)[0] == objects@[i as int]);
            assert(objects@.skip(i as int).drop_first() =~= objects@.skip(i + 1 as int));
        }
        match &objects[i] {
            PwObject::Node(n) => {
                if n.id == node_id {
                    match &n.info {
                        Some(info) => match &info.props {
                            Some(props) => {
                                return match &props.node_name {
                                    Some(s) => Some(s.clone()),
                                    None => None,
                                };
                            },
                            None => (),
                        },
                        None => (),
                    }
                }
            },
            _ => (),
        }
        i = i + 1;
    }
    proof {
        assert(objects@.skip(objects@.len() as int) =~= Seq::<PwObject>::empty());
    }
    None
}

/// The name stored with the first node of this id that has one, if any.
pub open spec fn spec_node_name_lookup(objs: Seq<PwObject>, node_id: u32) -> Option<Seq<char>>
    decreases objs.len(),
{
    if objs.len() == 0 {
        None
    } else if spec_node_id_named(objs[0], node_id) {
        Some(spec_props_node_name(objs[0])->0)
    } else {
        spec_node_name_lookup(objs.drop_first(), node_id)
    }
}

/// Whether the object is a node with this id that carries a name.
pub open spec fn spec_node_id_named(o: PwObject, node_id: u32) -> bool {
    match o {
        PwObject::Node(n) => n.id == node_id && spec_props_node_name(o) is Some,
        _ => false,
    }
}

fn node_name_lookup(objects: &Vec<PwObject>, node_id: u32) -> (r: Option<String>)
    ensures
        (r matches Some(s) ==> spec_node_name_lookup(objects@, node_id) == Some(s@)),
        (r is None ==> spec_node_name_lookup(objects@, node_id) is None),
{
    let mut i: usize = 0;
    proof {
        assert(objects@.skip(0) =~= objects@);
    }
    while i < objects.len()
        invariant
            i <= objects@.len(),
            spec_node_name_lookup(objects@, node_id) == spec_node_name_lookup(
                objects@.skip(i as int),
                node_id,
            ),
        decreases objects@.len() - i,
    {
        proof {
            assert(objects@.skip(i as int)[0] == objects@[i as int]);
            assert(objects@.skip(i as int).drop_first() =~= objects@.skip(i + 1 as int));
        }
        match &objects[i] {
            PwObject::Node(n) => {
                if n.id == node_id {
                    match &n.info {
                        Some(info) => match &info.props {
                            Some(props) => match &props.node_name {
                                Some(s) => {
                                    return Some(s.clone());
                                },
                                None => (),
                            },
                            None => (),
                        },
                        None => (),
                    }
                }
            },
            _ => (),
        }
        i = i + 1;
    }
    proof {
        assert(objects@.skip(objects@.len() as int) =~= Seq::<PwObject>::empty());
    }
    None
}

// ---------------------------------------------------------------------------
// Connections of one source
// ---------------------------------------------------------------------------

/// The links of a run that leave node `n`, in order.
pub open spec fn spec_links_from(ls: Seq<AudioLink>, n: u32) -> Seq<AudioLink> {
    ls.filter(|l: AudioLink| l.output_node_id == n)
}

/// The links of a run that enter node `t`, in order.
pub open spec fn spec_links_to(ls: Seq<AudioLink>, t: u32) -> Seq<AudioLink> {
    ls.filter(|l: AudioLink| l.input_node_id == t)
}

/// All links leaving one source node, in snapshot order.
pub open spec fn spec_source_links(n: u32, objs: Seq<PwObject>) -> Seq<AudioLink> {
    spec_links_from(spec_links(objs), n)
}

/// The distinct target nodes of a run of links, in order of first occurrence.
pub open spec fn spec_targets(ls: Seq<AudioLink>) -> Seq<u32>
    decreases ls.len(),
{
    if ls.len() == 0 {
        Seq::empty()
    } else {
        let rest = spec_targets(ls.drop_last());
        if rest.contains(ls.last().input_node_id) {
            rest
        } else {
            rest.push(ls.last().input_node_id)
        }
    }
}

/// The placeholder name of a target whose node name cannot be resolved.
pub open spec fn spec_unknown_name(t: u32) -> Seq<char> {
    "Unknown("@ + spec_dec(t as nat) + ")"@
}

/// The best-effort display name of a target node.
pub open spec fn spec_target_name(objs: Seq<PwObject>, t: u32) -> Seq<char> {
    match spec_node_name_lookup(objs, t) {
        Some(nm) => nm,
        None => spec_unknown_name(t),
    }
}

/// The connection grouping every link from source `n` to target `t`.
pub open spec fn spec_connection_for(n: u32, objs: Seq<PwObject>, t: u32) -> SourceConnectionV {
    SourceConnectionV {
        source_node_id: n,
        target_node_id: t,
        target_node_name: spec_target_name(objs, t),
        links: spec_links_to(spec_source_links(n, objs), t),
    }
}

/// The connections of one source: one entry per distinct target, each
/// holding exactly the links from the source to that target.
pub open spec fn spec_connections(n: u32, objs: Seq<PwObject>) -> Seq<SourceConnectionV> {
    spec_targets(spec_source_links(n, objs)).map_values(|t: u32| spec_connection_for(n, objs, t))
}

/// Membership test over a vector of node ids.
fn contains_u32(v: &Vec<u32>, x: u32) -> (b: bool)
    ensures
        b == v@.contains(x),
{
    let mut i: usize = 0;
    while i < v.len()
        invariant
            i <= v@.len(),
            forall|j: int| 0 <= j < i ==> v@[j] != x,
        decreases v@.len() - i,
    {
        if v[i] == x {
            return true;
        }
        i = i + 1;
    }
    false
}

/// Groups every link leaving `source_node_id` by its target node: one
/// [`SourceConnection`] per distinct target, in order of first occurrence,
/// each holding exactly the links to that target and a best-effort target
/// name (`Unknown(<id>)` when the target's name cannot be resolved).
pub fn find_source_connections(src: u32, objects: &Vec<PwObject>) -> (r: Vec<SourceConnection>)
    ensures
        r@.map_values(|c: SourceConnection| c@) == spec_connections(src, objects@),
{
    let links = extract_links(objects);
    let mut source_links: Vec<AudioLink> = Vec::new();
    let mut i: usize = 0;
    while i < links.len()
        invariant
            i <= links@.len(),
            links@ == spec_links(objects@),
            source_links@ =~= spec_links_from(links@.take(i as int), src),
        decreases links@.len() - i,
    {
        let ghost prefix = links@.take(i as int);
        if links[i].output_node_id == src {
            source_links.push(links[i]);
        }
        proof {
            reveal(Seq::filter);
            assert(links@.take(i + 1 as int).drop_last() =~= prefix);
            assert(links@.take(i + 1 as int).last() == links@[i as int]);
        }
        i = i + 1;
    }
    proof {
        assert(links@.take(links@.len() as int) =~= links@);
        assert(source_links@ == spec_source_links(src, objects@));
    }
    let mut targets: Vec<u32> = Vec::new();
    let mut i: usize = 0;
    while i < source_links.len()
        invariant
            i <= source_links@.len(),
            targets@ =~= spec_targets(source_links@.take(i as int)),
        decreases source_links@.len() - i,
    {
        let ghost prefix = source_links@.take(i as int);
        let t = source_links[i].input_node_id;
        if !contains_u32(&targets, t) {
            targets.push(t);
        }
        proof {
            assert(source_links@.take(i + 1 as int).drop_last() =~= prefix);
            assert(source_links@.take(i + 1 as int).last() == source_links@[i as int]);
        }
        i = i + 1;
    }
    proof {
        assert(source_links@.take(source_links@.len() as int) =~= source_links@);
    }
    let mut result: Vec<SourceConnection> = Vec::new();
    let mut j: usize = 0;
    let ghost want = spec_connections(src, objects@);
    while j < targets.len()
        invariant
            j <= targets@.len(),
            source_links@ == spec_source_links(src, objects@),
            targets@ == spec_targets(spec_source_links(src, objects@)),
            want == spec_connections(src, objects@),
            result@.map_values(|c: SourceConnection| c@) =~= want.take(j as int),
        decreases targets@.len() - j,
    {
        let t = targets[j];
        let mut conn_links: Vec<AudioLink> = Vec::new();
        let mut k: usize = 0;
        while k < source_links.len()
            invariant
                k <= source_links@.len(),
                conn_links@ =~= spec_links_to(source_links@.take(k as int), t),
            decreases source_links@.len() - k,
        {
            let ghost prefix = source_links@.take(k as int);
            if source_links[k].input_node_id == t {
                conn_links.push(source_links[k]);
            }
            proof {
                reveal(Seq::filter);
                assert(source_links@.take(k + 1 as int).drop_last() =~= prefix);
                assert(source_links@.take(k + 1 as int).last() == source_links@[k as int]);
            }
            k = k + 1;
        }
        proof {
            assert(source_links@.take(source_links@.len() as int) =~= source_links@);
            assert(conn_links@ == spec_links_to(spec_source_links(src, objects@), t));
        }
        let target_node_name = match node_name_lookup(objects, t) {
            Some(s) => s,
            None => {
                let d = u64_to_string(t as u64);
                let u = String::from_str("Unknown(").concat(d.as_str()).concat(")");
                proof {
                    assert(u@ =~= spec_unknown_name(t));
                }
                u
            },
        };
        let conn = SourceConnection {
            source_node_id: src,
            target_node_id: t,
            target_node_name,
            links: conn_links,
        };
        proof {
            assert(conn@ == spec_connection_for(src, objects@, t));
            assert(want[j as int] == spec_connection_for(src, objects@, targets@[j as int]));
            assert(conn@ == want[j as int]);
        }
        let ghost result_old = result@;
        result.push(conn);
        proof {
            assert(result_old.map_values(|c: SourceConnection| c@).len() == result_old.len());
            assert(result_old.len() == j);
            assert(result@ =~= result_old.push(conn));
            assert(result@.len() == j + 1);
            assert forall|ii: int| 0 <= ii < j + 1 implies result@.map_values(
                |c: SourceConnection| c@,
            )[ii] == #[trigger] want.take(j + 1 as int)[ii] by {
                if ii < j {
                    assert(result_old.map_values(|c: SourceConnection| c@)[ii] == want.take(
                        j as int,
                    )[ii]);
                    assert(result@[ii] == result_old[ii]);
                } else {
                    assert(result@[ii] == conn);
                }
            }
            assert(result@.map_values(|c: SourceConnection| c@) =~= want.take(j + 1 as int));
        }
        j = j + 1;
    }
    proof {
        assert(want.take(targets@.len() as int) =~= want);
    }
    result
}

// ---------------------------------------------------------------------------
// Snapshot consistency
// ---------------------------------------------------------------------------

/// Whether one port agrees with one link: if the port is an endpoint of the
/// link, its owning node must be the node the link records for that side.
pub open spec fn spec_link_port_agree(l: AudioLink, p: AudioPortV) -> bool {
    &&& (p.port_id == l.output_port_id ==> p.node_id == l.output_node_id)
    &&& (p.port_id == l.input_port_id ==> p.node_id == l.input_node_id)
}

/// Whether every link of the snapshot agrees with every port: the two ports
/// a link references are owned by the nodes the link records.
pub open spec fn spec_snapshot_consistent(objs: Seq<PwObject>) -> bool {
    forall|i: int, j: int|
        0 <= i < spec_links(objs).len() && 0 <= j < spec_ports(objs).len()
            ==> spec_link_port_agree(
                #[trigger] spec_links(objs)[i],
                #[trigger] spec_ports(objs)[j],
            )
}

fn link_port_agree(l: &AudioLink, p: &AudioPort) -> (b: bool)
    ensures
        b == spec_link_port_agree(*l, p@),
{
    (p.port_id != l.output_port_id || p.node_id == l.output_node_id) && (p.port_id
        != l.input_port_id || p.node_id == l.input_node_id)
}

/// Decides whether a snapshot is consistent: every link's referenced ports,
/// as far as they appear in the snapshot, are owned by the link's recorded
/// output and input nodes.
pub fn snapshot_links_consistent(objects: &Vec<PwObject>) -> (b: bool)
    ensures
        b == spec_snapshot_consistent(objects@),
{
    let links = extract_links(objects);
    let ports = extract_ports(objects);
    let ghost pv = spec_ports(objects@);
    let mut i: usize = 0;
    while i < links.len()
        invariant
            links@ == spec_links(objects@),
            ports@.map_values(|p: AudioPort| p@) == pv,
            pv == spec_ports(objects@),
            ports@.len() == pv.len(),
            i <= links@.len(),
            forall|i2: int, j2: int|
                0 <= i2 < i && 0 <= j2 < pv.len() ==> spec_link_port_agree(
                    #[trigger] links@[i2],
                    #[trigger] pv[j2],
                ),
        decreases links@.len() - i,
    {
        let mut j: usize = 0;
        while j < ports.len()
            invariant
                links@ == spec_links(objects@),
                ports@.map_values(|p: AudioPort| p@) == pv,
                pv == spec_ports(objects@),
                ports@.len() == pv.len(),
                i < links@.len(),
                j <= pv.len(),
                forall|j2: int|
                    0 <= j2 < j ==> spec_link_port_agree(links@[i as int], #[trigger] pv[j2]),
            decreases pv.len() - j,
        {
            proof {
                assert(ports@.map_values(|p: AudioPort| p@)[j as int] == ports@[j as int]@);
            }
            if !link_port_agree(&links[i], &ports[j]) {
                proof {
                    assert(!spec_link_port_agree(
                        spec_links(objects@)[i as int],
                        spec_ports(objects@)[j as int],
                    ));
                }
                return false;
            }
            j = j + 1;
        }
        i = i + 1;
    }
    true
}

// ---------------------------------------------------------------------------
// Shape of the connection grouping
// ---------------------------------------------------------------------------

/// Whatever a filter keeps was in the sequence it was taken from.
pub proof fn lemma_filter_membership<A>(s: Seq<A>, pred: spec_fn(A) -> bool)
    ensures
        forall|i: int|
            0 <= i < s.filter(pred).len() ==> s.contains(#[trigger] s.filter(pred)[i]),
    decreases s.len(),
{
    reveal(Seq::filter);
    if s.len() > 0 {
        lemma_filter_membership(s.drop_last(), pred);
        let f = s.filter(pred);
        let fd = s.drop_last().filter(pred);
        assert forall|i: int| 0 <= i < f.len() implies s.contains(#[trigger] f[i]) by {
            if i < fd.len() {
                assert(fd[i] == f[i]);
                assert(s.drop_last().contains(fd[i]));
                let k = choose|k: int| 0 <= k < s.drop_last().len() && s.drop_last()[k] == fd[i];
                assert(s[k] == fd[i]);
            } else {
                assert(f[i] == s.last());
                assert(s[s.len() - 1] == s.last());
            }
        }
    }
}

/// The targets of a run of links are pairwise distinct.
pub proof fn lemma_targets_distinct(ls: Seq<AudioLink>)
    ensures
        forall|k1: int, k2: int|
            0 <= k1 < k2 < spec_targets(ls).len() ==> #[trigger] spec_targets(ls)[k1]
                != #[trigger] spec_targets(ls)[k2],
    decreases ls.len(),
{
    if ls.len() > 0 {
        lemma_targets_distinct(ls.drop_last());
        let rest = spec_targets(ls.drop_last());
        let t = ls.last().input_node_id;
        if !rest.contains(t) {
            let whole = spec_targets(ls);
            assert(whole == rest.push(t));
            assert forall|k1: int, k2: int|
                0 <= k1 < k2 < whole.len() implies #[trigger] whole[k1]
                != #[trigger] whole[k2] by {
                if k2 < whole.len() - 1 {
                    assert(whole[k1] == rest[k1] && whole[k2] == rest[k2]);
                } else {
                    assert(whole[k2] == t);
                    assert(whole[k1] == rest[k1]);
                    if whole[k1] == t {
                        assert(rest.contains(t));
                    }
                }
            }
        }
    }
}

/// Shape of the connection grouping: every connection of a source carries
/// the source's id; its links all leave the source, all enter the
/// connection's target, and all come from the snapshot; and no two
/// connections share a target.
pub proof fn lemma_connections_shape(n: u32, objs: Seq<PwObject>)
    ensures
        forall|k: int|
            0 <= k < spec_connections(n, objs).len() ==> (#[trigger] spec_connections(
                n,
                objs,
            )[k]).source_node_id == n,
        forall|k: int, li: int|
            0 <= k < spec_connections(n, objs).len() && 0 <= li < spec_connections(
                n,
                objs,
            )[k].links.len() ==> ((#[trigger] spec_connections(n, objs)[k].links[li]).output_node_id
                == n && spec_connections(n, objs)[k].links[li].input_node_id == spec_connections(
                n,
                objs,
            )[k].target_node_id && spec_links(objs).contains(
                spec_connections(n, objs)[k].links[li],
            )),
        forall|k1: int, k2: int|
            0 <= k1 < k2 < spec_connections(n, objs).len() ==> (#[trigger] spec_connections(
                n,
                objs,
            )[k1]).target_node_id != (#[trigger] spec_connections(n, objs)[k2]).target_node_id,
{
    let sl = spec_source_links(n, objs);
    let ts = spec_targets(sl);
    let conns = spec_connections(n, objs);
    lemma_targets_distinct(sl);
    assert forall|k: int, li: int|
        0 <= k < conns.len() && 0 <= li < conns[k].links.len() implies ((#[trigger] conns[k].links[li]).output_node_id
        == n && conns[k].links[li].input_node_id == conns[k].target_node_id
        && spec_links(objs).contains(conns[k].links[li])) by {
        assert(conns[k] == spec_connection_for(n, objs, ts[k]));
        let t = ts[k];
        let l = conns[k].links[li];
        sl.lemma_filter_pred(|x: AudioLink| x.input_node_id == t, li);
        lemma_filter_membership(sl, |x: AudioLink| x.input_node_id == t);
        assert(sl.contains(l));
        let k3 = choose|k3: int| 0 <= k3 < sl.len() && sl[k3] == l;
        spec_links(objs).lemma_filter_pred(|x: AudioLink| x.output_node_id == n, k3);
        lemma_filter_membership(spec_links(objs), |x: AudioLink| x.output_node_id == n);
    }
}

/// Every link of a run appears among its targets' entries.
pub proof fn lemma_targets_complete(ls: Seq<AudioLink>)
    ensures
        forall|i: int|
            0 <= i < ls.len() ==> spec_targets(ls).contains((#[trigger] ls[i]).input_node_id),
    decreases ls.len(),
{
    if ls.len() > 0 {
        lemma_targets_complete(ls.drop_last());
        let rest = spec_targets(ls.drop_last());
        let whole = spec_targets(ls);
        let t = ls.last().input_node_id;
        assert forall|i: int|
            0 <= i < ls.len() implies whole.contains((#[trigger] ls[i]).input_node_id) by {
            if i < ls.len() - 1 {
                assert(ls.drop_last()[i] == ls[i]);
                assert(rest.contains(ls[i].input_node_id));
                let j = choose|j: int|
                    0 <= j < rest.len() && rest[j] == ls[i].input_node_id;
                assert(whole[j] == ls[i].input_node_id);
            } else {
                if rest.contains(t) {
                    let j = choose|j: int| 0 <= j < rest.len() && rest[j] == t;
                    assert(whole[j] == t);
                } else {
                    assert(whole[rest.len() as int] == t);
                }
            }
        }
    }
}

/// The connection grouping loses nothing: every link leaving the source
/// stands in one of its connections.
pub proof fn lemma_connections_complete(n: u32, objs: Seq<PwObject>)
    ensures
        forall|i: int|
            0 <= i < spec_source_links(n, objs).len() ==> (exists|k: int, li: int|
                0 <= k < spec_connections(n, objs).len() && 0 <= li < spec_connections(
                    n,
                    objs,
                )[k].links.len() && #[trigger] spec_connections(n, objs)[k].links[li]
                    == #[trigger] spec_source_links(n, objs)[i]),
{
    let sl = spec_source_links(n, objs);
    let ts = spec_targets(sl);
    lemma_targets_complete(sl);
    assert forall|i: int|
        0 <= i < sl.len() implies (exists|k: int, li: int|
        0 <= k < spec_connections(n, objs).len() && 0 <= li < spec_connections(
            n,
            objs,
        )[k].links.len() && #[trigger] spec_connections(n, objs)[k].links[li]
            == #[trigger] sl[i]) by {
        let l = sl[i];
        let t = l.input_node_id;
        assert(ts.contains(t));
        let k = choose|k: int| 0 <= k < ts.len() && ts[k] == t;
        assert(spec_connections(n, objs)[k] == spec_connection_for(n, objs, ts[k]));
        sl.lemma_filter_contains(|x: AudioLink| x.input_node_id == t, i);
        let f = spec_links_to(sl, t);
        assert(f.contains(l));
        let li = choose|li: int| 0 <= li < f.len() && f[li] == l;
        assert(spec_connections(n, objs)[k].links[li] == sl[i]);
    }
}

/// In a consistent snapshot, every link of every derived connection agrees
/// with every port: the two ports the link references are owned by the
/// nodes the link records.
pub proof fn lemma_consistent_connections(n: u32, objs: Seq<PwObject>)
    requires
        spec_snapshot_consistent(objs),
    ensures
        forall|k: int, li: int, j: int|
            0 <= k < spec_connections(n, objs).len() && 0 <= li < spec_connections(
                n,
                objs,
            )[k].links.len() && 0 <= j < spec_ports(objs).len() ==> spec_link_port_agree(
                #[trigger] spec_connections(n, objs)[k].links[li],
                #[trigger] spec_ports(objs)[j],
            ),
{
    lemma_connections_shape(n, objs);
    assert forall|k: int, li: int, j: int|
        0 <= k < spec_connections(n, objs).len() && 0 <= li < spec_connections(
            n,
            objs,
        )[k].links.len() && 0 <= j < spec_ports(objs).len() implies spec_link_port_agree(
        #[trigger] spec_connections(n, objs)[k].links[li],
        #[trigger] spec_ports(objs)[j],
    ) by {
        let l = spec_connections(n, objs)[k].links[li];
        assert(spec_links(objs).contains(l));
        let i = choose|i: int| 0 <= i < spec_links(objs).len() && spec_links(objs)[i] == l;
        assert(spec_link_port_agree(spec_links(objs)[i], spec_ports(objs)[j]));
    }
}

// ---------------------------------------------------------------------------
// Display helpers of the derived entities
// ---------------------------------------------------------------------------

/// The characters of a name that are safe in server object names:
/// letters, digits and underscores, in order.
pub open spec fn spec_safe_chars(s: Seq<char>) -> Seq<char> {
    s.filter(|c: char| spec_char_is_alphanumeric(c) || c == '_')
}

impl AudioSource {
    /// The name shown for this source: the application plus its stream.
    pub fn display_name(&self) -> (r: String)
        ensures
            r@ == self.application_name@ + " ["@ + self.media_name@ + "]"@,
    {
        let s = self.application_name.as_str().to_owned();
        let s = s.concat(" [");
        let s = s.concat(self.media_name.as_str());
        let s = s.concat("]");
        proof {
            assert(s@ =~= self.application_name@ + " ["@ + self.media_name@ + "]"@);
        }
        s
    }

    /// The application name reduced to characters safe in object names:
    /// letters, digits and underscores.
    pub fn safe_name(&self) -> (r: String)
        ensures
            r@ == spec_safe_chars(self.application_name@),
    {
        let mut r = String::new();
        let n = self.application_name.as_str().unicode_len();
        let mut i: usize = 0;
        while i < n
            invariant
                n == self.application_name@.len(),
                i <= n,
                r@ =~= self.application_name@.take(i as int).filter(
                    |c: char| spec_char_is_alphanumeric(c) || c == '_',
                ),
            decreases n - i,
        {
            let ghost prefix = self.application_name@.take(i as int);
            let c = self.application_name.as_str().get_char(i);
            if char_is_alphanumeric(c) || c == '_' {
                push_char(&mut r, c);
            }
            proof {
                reveal(Seq::filter);
                assert(self.application_name@.take(i + 1 as int).drop_last() =~= prefix);
                assert(self.application_name@.take(i + 1 as int).last()
                    == self.application_name@[i as int]);
            }
            i = i + 1;
        }
        proof {
            assert(self.application_name@.take(n as int) =~= self.application_name@);
        }
        r
    }
}

impl RecordingDest {
    /// The name shown for this destination: the application plus its stream.
    pub fn display_name(&self) -> (r: String)
        ensures
            r@ == self.application_name@ + " ["@ + self.media_name@ + "]"@,
    {
        let s = self.application_name.as_str().to_owned();
        let s = s.concat(" [");
        let s = s.concat(self.media_name.as_str());
        let s = s.concat("]");
        proof {
            assert(s@ =~= self.application_name@ + " ["@ + self.media_name@ + "]"@);
        }
        s
    }
}

} // verus!
