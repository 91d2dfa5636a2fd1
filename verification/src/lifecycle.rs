//! Lifecycle planning: what a split's setup, teardown and crash recovery
//! must do, computed as exact plans over plain values.
//!
//! The surrounding application spawns the relay processes, runs the audio
//! server's tools, sleeps out the port-visibility delay and probes process
//! liveness; every decision in between comes from here.  A setup failure
//! deliberately rolls nothing back, and a teardown is deliberately
//! tolerant: both are the recorded design.

use vstd::prelude::*;
use vstd::string::StringExecFns;
use crate::error::PwSplitterError;
use crate::graph::{AudioSink, AudioSinkV, AudioSource, RecordingDest, SourceConnection};
use crate::graph::{SourceConnectionV, spec_safe_chars};
use crate::state::{SavedLink, SplitState, SplitStateV};

verus! {

/// Everything `setup` needs: the chosen source and recording destination,
/// and the source's connections as they stood when it was chosen.
pub struct SplitConfig {
    pub source: AudioSource,
    pub recording_dest: RecordingDest,
    pub original_connections: Vec<SourceConnection>,
}

// ---------------------------------------------------------------------------
// Choosing the primary output
// ---------------------------------------------------------------------------

/// Whether a connection's target is a device endpoint.
pub open spec fn spec_is_sink_target(c: SourceConnectionV, sinks: Seq<AudioSinkV>) -> bool {
    exists|j: int| 0 <= j < sinks.len() && (#[trigger] sinks[j]).node_id == c.target_node_id
}

/// What `find_primary_output` promises: no connection means no split; else
/// the first device-endpoint target, else the first connection.
pub open spec fn spec_primary_output_post(
    conns: Seq<SourceConnectionV>,
    sinks: Seq<AudioSinkV>,
    r: Result<usize, PwSplitterError>,
) -> bool {
    if conns.len() == 0 {
        r matches Err(PwSplitterError::NoActiveConnection)
    } else {
        r matches Ok(i) && i < conns.len() && ((spec_is_sink_target(conns[i as int], sinks)
            && (forall|k: int| 0 <= k < i ==> !spec_is_sink_target(#[trigger] conns[k], sinks)))
            || (i == 0 && (forall|k: int|
            0 <= k < conns.len() ==> !spec_is_sink_target(#[trigger] conns[k], sinks))))
    }
}

fn sinks_contain_node(sinks: &Vec<AudioSink>, node_id: u32) -> (b: bool)
    ensures
        b == (exists|j: int| 0 <= j < sinks@.len() && (#[trigger] sinks@[j]).node_id == node_id),
{
    let mut j: usize = 0;
    while j < sinks.len()
        invariant
            j <= sinks@.len(),
            forall|j2: int| 0 <= j2 < j ==> (#[trigger] sinks@[j2]).node_id != node_id,
        decreases sinks@.len() - j,
    {
        if sinks[j].node_id == node_id {
            return true;
        }
        j = j + 1;
    }
    false
}

/// Picks the connection a split restores sound to afterwards: prefer a
/// device-endpoint target, else the first connection; with no connection at
/// all the split cannot be set up.
pub fn find_primary_output(connections: &Vec<SourceConnection>, sinks: &Vec<AudioSink>) -> (r:
    Result<usize, PwSplitterError>)
    ensures
        spec_primary_output_post(
            connections@.map_values(|c: SourceConnection| c@),
            sinks@.map_values(|s: AudioSink| s@),
            r,
        ),
{
    let ghost cv = connections@.map_values(|c: SourceConnection| c@);
    if connections.len() == 0 {
        return Err(PwSplitterError::NoActiveConnection);
    }
    let mut i: usize = 0;
    while i < connections.len()
        invariant
            i <= connections@.len(),
            connections@.len() > 0,
            cv == connections@.map_values(|c: SourceConnection| c@),
            cv.len() == connections@.len(),
            forall|k: int|
                0 <= k < i ==> !spec_is_sink_target(
                    #[trigger] cv[k],
                    sinks@.map_values(|s: AudioSink| s@),
                ),
        decreases connections@.len() - i,
    {
        proof {
            assert(cv[i as int] == connections@[i as int]@);
        }
        let ghost sv = sinks@.map_values(|s: AudioSink| s@);
        if sinks_contain_node(sinks, connections[i].target_node_id) {
            proof {
                let t = cv[i as int].target_node_id;
                let j = choose|j: int| 0 <= j < sinks@.len() && (#[trigger] sinks@[j]).node_id == t;
                assert(sv[j] == sinks@[j]@);
                assert(spec_is_sink_target(cv[i as int], sv));
            }
            return Ok(i);
        }
        proof {
            assert(!spec_is_sink_target(cv[i as int], sv)) by {
                assert forall|j: int| 0 <= j < sv.len() implies (#[trigger] sv[j]).node_id
                    != cv[i as int].target_node_id by {
                    assert(sv[j] == sinks@[j]@);
                }
            }
        }
        i = i + 1;
    }
    Ok(0)
}

// ---------------------------------------------------------------------------
// Naming a split's parts
// ---------------------------------------------------------------------------

/// The names and descriptions a new split's parts get, all derived from the
/// chosen source and destination.
pub struct SetupNames {
    /// The base the unique split name is derived from.
    pub base_name: String,
    /// The recording relay's node name.
    pub recording_loopback_name: String,
    /// The local relay's node name.
    pub local_loopback_name: String,
    /// The recording relay's description.
    pub recording_desc: String,
    /// The local relay's description.
    pub local_desc: String,
}

/// Derives the names of a new split's parts: relay node names from the
/// source's sanitized application name, descriptions from the plain ones.
pub fn setup_names(source: &AudioSource, recording_dest: &RecordingDest) -> (r: SetupNames)
    ensures
        r.base_name@ == spec_safe_chars(source.application_name@) + "_Split"@,
        r.recording_loopback_name@ == spec_safe_chars(source.application_name@)
            + "_to_Recording"@,
        r.local_loopback_name@ == spec_safe_chars(source.application_name@) + "_to_Local"@,
        r.recording_desc@ == source.application_name@ + " -> "@
            + recording_dest.application_name@,
        r.local_desc@ == source.application_name@ + " -> Local"@,
{
    let safe = source.safe_name();
    let base_name = safe.clone().concat("_Split");
    let recording_loopback_name = safe.clone().concat("_to_Recording");
    let local_loopback_name = safe.clone().concat("_to_Local");
    let recording_desc = source.application_name.clone().concat(" -> ").concat(
        recording_dest.application_name.as_str(),
    );
    proof {
        assert(recording_desc@ =~= source.application_name@ + " -> "@
            + recording_dest.application_name@);
    }
    let local_desc = source.application_name.clone().concat(" -> Local");
    SetupNames {
        base_name,
        recording_loopback_name,
        local_loopback_name,
        recording_desc,
        local_desc,
    }
}

// ---------------------------------------------------------------------------
// Building and reshaping the record
// ---------------------------------------------------------------------------

/// Assembles the durable record of a freshly set up split: the chosen
/// endpoints, the relay identities and process ids, the exact severed
/// pairs, and the creation time.
pub fn build_split_state(
    name: String,
    config: &SplitConfig,
    names: &SetupNames,
    original_output_node_name: String,
    saved_links: Vec<SavedLink>,
    recording_pid: u32,
    local_pid: u32,
    created_at: u64,
) -> (r: SplitState)
    ensures
        r.name@ == name@,
        r.source_node_id == config.source.node_id,
        r.source_node_name@ == config.source.node_name@,
        r.source_application_name@ == config.source.application_name@,
        r.recording_loopback_name@ == names.recording_loopback_name@,
        r.local_loopback_name@ == names.local_loopback_name@,
        r.recording_dest_node_id == config.recording_dest.node_id,
        r.recording_dest_media_name@ == config.recording_dest.media_name@,
        r.recording_dest_application_name@ == config.recording_dest.application_name@,
        r.original_output_node_name@ == original_output_node_name@,
        r.original_links@.map_values(|l: SavedLink| l@) == saved_links@.map_values(
            |l: SavedLink| l@,
        ),
        r.loopback_to_recording_pid == recording_pid,
        r.loopback_to_local_pid == local_pid,
        r.created_at == created_at,
{
    SplitState {
        name,
        source_node_id: config.source.node_id,
        source_node_name: config.source.node_name.clone(),
        source_application_name: config.source.application_name.clone(),
        recording_loopback_name: names.recording_loopback_name.clone(),
        local_loopback_name: names.local_loopback_name.clone(),
        recording_dest_node_id: config.recording_dest.node_id,
        recording_dest_media_name: config.recording_dest.media_name.clone(),
        recording_dest_application_name: config.recording_dest.application_name.clone(),
        original_output_node_name,
        original_links: saved_links,
        loopback_to_recording_pid: recording_pid,
        loopback_to_local_pid: local_pid,
        created_at,
    }
}

// ---------------------------------------------------------------------------
// Teardown
// ---------------------------------------------------------------------------

/// Everything a teardown must do, read off the record alone: signal both
/// relay processes, recreate every severed pair, remove the record file.
pub struct TeardownPlan {
    /// The recording relay's process id, to be signalled.
    pub recording_pid: u32,
    /// The local relay's process id, to be signalled.
    pub local_pid: u32,
    /// The exact pairs to recreate, as recorded at setup time.
    pub links_to_restore: Vec<SavedLink>,
    /// The record to remove once restoration was attempted.
    pub record_name: String,
}

/// Plans the teardown of one split from its record alone: it never
/// re-derives severed links from a later snapshot.  Execution is
/// best-effort by design; only a failure to remove the record is reported
/// by the caller.
pub fn teardown_split(state: &SplitState) -> (r: TeardownPlan)
    ensures
        r.recording_pid == state.loopback_to_recording_pid,
        r.local_pid == state.loopback_to_local_pid,
        r.links_to_restore@.map_values(|l: SavedLink| l@) == state.original_links@.map_values(
            |l: SavedLink| l@,
        ),
        r.record_name@ == state.name@,
{
    TeardownPlan {
        recording_pid: state.loopback_to_recording_pid,
        local_pid: state.loopback_to_local_pid,
        links_to_restore: crate::state::clone_saved_links(&state.original_links),
        record_name: state.name.clone(),
    }
}

/// The names of the splits whose teardown went through, in order: what
/// `stop_all` reports.  Residual failures are visible only by comparing
/// against the pre-call listing.
pub open spec fn spec_stopped_names(names: Seq<Seq<char>>, ok: Seq<bool>) -> Seq<Seq<char>>
    recommends
        names.len() == ok.len(),
    decreases names.len(),
{
    if names.len() == 0 {
        Seq::empty()
    } else {
        let rest = spec_stopped_names(names.drop_last(), ok.drop_last());
        if ok.len() >= 1 && ok.last() {
            rest.push(names.last())
        } else {
            rest
        }
    }
}

/// Keeps the names of the splits whose teardown went through.
pub fn stopped_names(states: &Vec<SplitState>, ok: &Vec<bool>) -> (r: Vec<String>)
    requires
        states@.len() == ok@.len(),
    ensures
        r@.map_values(|s: String| s@) == spec_stopped_names(
            states@.map_values(|s: SplitState| s@.name),
            ok@,
        ),
{
    let ghost nv = states@.map_values(|s: SplitState| s@.name);
    let mut r: Vec<String> = Vec::new();
    let mut i: usize = 0;
    while i < states.len()
        invariant
            i <= states@.len(),
            states@.len() == ok@.len(),
            nv == states@.map_values(|s: SplitState| s@.name),
            nv.len() == states@.len(),
            r@.map_values(|s: String| s@) =~= spec_stopped_names(
                nv.take(i as int),
                ok@.take(i as int),
            ),
        decreases states@.len() - i,
    {
        proof {
            assert(nv[i as int] == states@[i as int]@.name);
        }
        let ghost r_old = r@;
        if ok[i] {
            let n = states[i].name.clone();
            let ghost nvv = n@;
            r.push(n);
            proof {
                assert(r@ =~= r_old.push(r@[r_old.len() as int]));
                assert(r@.map_values(|s: String| s@) =~= r_old.map_values(
                    |s: String| s@,
                ).push(nvv));
            }
        }
        proof {
            assert(nv.take(i + 1 as int).drop_last() =~= nv.take(i as int));
            assert(ok@.take(i + 1 as int).drop_last() =~= ok@.take(i as int));
            assert(nv.take(i + 1 as int).last() == nv[i as int]);
            assert(ok@.take(i + 1 as int).last() == ok@[i as int]);
        }
        i = i + 1;
    }
    proof {
        assert(nv.take(nv.len() as int) =~= nv);
        assert(ok@.take(ok@.len() as int) =~= ok@);
    }
    r
}

// ---------------------------------------------------------------------------
// Health checks and recovery
// ---------------------------------------------------------------------------

/// What a health check decided: which relay to respawn, and which to
/// rewire afterwards.  Only the recording relay is ever rewired; the local
/// relay is respawned without rewiring — the observed recovery behaviour,
/// preserved as it stands.
pub struct HealthPlan {
    pub respawn_recording: bool,
    pub rewire_recording: bool,
    pub respawn_local: bool,
    pub rewire_local: bool,
}

/// Decides recovery from two liveness probes.  A relay found dead is
/// respawned; the recording relay's capture and playback wiring is then
/// re-established (a fresh relay starts unconnected), the local relay's is
/// not.  Two live probes decide nothing.
pub fn health_check(recording_running: bool, local_running: bool) -> (p: HealthPlan)
    ensures
        p.respawn_recording == !recording_running,
        p.rewire_recording == !recording_running,
        p.respawn_local == !local_running,
        p.rewire_local == false,
{
    HealthPlan {
        respawn_recording: !recording_running,
        rewire_recording: !recording_running,
        respawn_local: !local_running,
        rewire_local: false,
    }
}

/// The record after a relay respawn: the one pid replaced, all else kept.
pub open spec fn spec_with_recording_pid(v: SplitStateV, pid: u32) -> SplitStateV {
    SplitStateV { loopback_to_recording_pid: pid, ..v }
}

/// The record after a local-relay respawn: the one pid replaced, all else
/// kept.
pub open spec fn spec_with_local_pid(v: SplitStateV, pid: u32) -> SplitStateV {
    SplitStateV { loopback_to_local_pid: pid, ..v }
}

/// Stores a respawned recording relay's process id in the record; nothing
/// else changes.  The caller re-persists the record.
pub fn apply_recording_respawn(state: &mut SplitState, new_pid: u32)
    ensures
        final(state)@ == spec_with_recording_pid(old(state)@, new_pid),
{
    state.loopback_to_recording_pid = new_pid;
}

/// Stores a respawned local relay's process id in the record; nothing else
/// changes.  The caller re-persists the record.
pub fn apply_local_respawn(state: &mut SplitState, new_pid: u32)
    ensures
        final(state)@ == spec_with_local_pid(old(state)@, new_pid),
{
    state.loopback_to_local_pid = new_pid;
}

} // verus!
