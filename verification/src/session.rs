//! The interactive session's state machine: selection of a source and a
//! recording destination, confirmation, the active split, and recovery.
//!
//! The machine only decides; it performs nothing.  Where the original flow
//! would spawn relays, rewire the graph or probe processes, a method here
//! returns an [`AppAction`] or a [`HealthPlan`] for the surrounding
//! application to execute, and an `apply_*` method folds the outcome back
//! into the state.

use vstd::prelude::*;
use vstd::string::StringExecFns;
use crate::graph::{AudioSource, RecordingDest, SourceConnection, PwObject};
use crate::graph::{extract_audio_sources, extract_recording_dests, extract_audio_sinks};
use crate::graph::{find_source_connections, spec_sources, spec_dests, spec_sinks};
use crate::graph::spec_connections;
use crate::lifecycle::{SplitConfig, HealthPlan, health_check};
use crate::state::SplitState;

verus! {

/// Where the session stands.
#[derive(Debug, Clone, PartialEq, Eq)]
pub enum AppState {
    SelectSource,
    SelectDestination,
    Confirm,
    Active,
    Error(String),
    Done,
}

/// What the surrounding application must do next on the session's behalf.
pub enum AppAction {
    /// Set the split up: spawn the relays, rewire, persist the record.
    RunSetup(SplitConfig),
    /// Tear the split down from its record.
    RunTeardown(SplitState),
}

/// The session's state: the lists shown, the cursor in each, the choices
/// made, and the active split if one runs.
pub struct App {
    pub state: AppState,
    pub sources: Vec<AudioSource>,
    pub destinations: Vec<RecordingDest>,
    pub selected_source_idx: usize,
    pub selected_dest_idx: usize,
    pub selected_source: Option<AudioSource>,
    pub selected_dest: Option<RecordingDest>,
    pub source_connections: Vec<SourceConnection>,
    pub active_split: Option<SplitState>,
    pub status_message: String,
    pub should_quit: bool,
}

/// The cursors stay inside their lists (at zero when a list is empty).
pub open spec fn spec_app_inv(a: App) -> bool {
    &&& (a.sources@.len() == 0 ==> a.selected_source_idx == 0)
    &&& (a.sources@.len() > 0 ==> a.selected_source_idx < a.sources@.len())
    &&& (a.destinations@.len() == 0 ==> a.selected_dest_idx == 0)
    &&& (a.destinations@.len() > 0 ==> a.selected_dest_idx < a.destinations@.len())
}

/// The fields a step leaves alone besides the ones it names.
pub open spec fn spec_same_lists(o: App, n: App) -> bool {
    &&& n.sources == o.sources
    &&& n.destinations == o.destinations
    &&& n.selected_source_idx == o.selected_source_idx
    &&& n.selected_dest_idx == o.selected_dest_idx
}

pub open spec fn spec_same_choices(o: App, n: App) -> bool {
    &&& n.selected_source == o.selected_source
    &&& n.selected_dest == o.selected_dest
    &&& n.source_connections == o.source_connections
    &&& n.active_split == o.active_split
}

pub open spec fn spec_same_rest(o: App, n: App) -> bool {
    &&& spec_same_lists(o, n)
    &&& spec_same_choices(o, n)
    &&& n.should_quit == o.should_quit
}

/// A cursor clamped to a list's length.
pub open spec fn spec_clamp_idx(i: int, len: int) -> int {
    if i < len {
        i
    } else if len == 0 {
        0
    } else {
        len - 1
    }
}

fn dup_source(s: &AudioSource) -> (r: AudioSource)
    ensures
        r == *s,
{
    AudioSource {
        node_id: s.node_id,
        node_name: s.node_name.clone(),
        application_name: s.application_name.clone(),
        media_name: s.media_name.clone(),
    }
}

fn dup_dest(d: &RecordingDest) -> (r: RecordingDest)
    ensures
        r == *d,
{
    RecordingDest {
        node_id: d.node_id,
        node_name: d.node_name.clone(),
        application_name: d.application_name.clone(),
        media_name: d.media_name.clone(),
    }
}

fn dup_connections(v: &Vec<SourceConnection>) -> (r: Vec<SourceConnection>)
    ensures
        r@.map_values(|c: SourceConnection| c@) == v@.map_values(|c: SourceConnection| c@),
{
    let mut r: Vec<SourceConnection> = Vec::new();
    let mut i: usize = 0;
    while i < v.len()
        invariant
            i <= v@.len(),
            r@.map_values(|c: SourceConnection| c@) =~= v@.map_values(
                |c: SourceConnection| c@,
            ).take(i as int),
        decreases v@.len() - i,
    {
        let ghost r_old = r@;
        let c = &v[i];
        let mut links: Vec<crate::graph::AudioLink> = Vec::new();
        let mut k: usize = 0;
        while k < c.links.len()
            invariant
                k <= c.links@.len(),
                links@ =~= c.links@.take(k as int),
            decreases c.links@.len() - k,
        {
            links.push(c.links[k]);
            k = k + 1;
        }
        proof {
            assert(c.links@.take(c.links@.len() as int) =~= c.links@);
        }
        let d = SourceConnection {
            source_node_id: c.source_node_id,
            target_node_id: c.target_node_id,
            target_node_name: c.target_node_name.clone(),
            links,
        };
        let ghost dv = d@;
        r.push(d);
        proof {
            assert(v@.map_values(|c2: SourceConnection| c2@)[i as int] == v@[i as int]@);
            assert(dv == v@[i as int]@);
            assert(r@ =~= r_old.push(r@[r_old.len() as int]));
            assert(r@.map_values(|c2: SourceConnection| c2@) =~= r_old.map_values(
                |c2: SourceConnection| c2@,
            ).push(dv));
        }
        i = i + 1;
    }
    proof {
        assert(v@.map_values(|c: SourceConnection| c@).take(v@.len() as int) =~= v@.map_values(
            |c: SourceConnection| c@,
        ));
    }
    r
}

fn dup_split_state(s: &SplitState) -> (r: SplitState)
    ensures
        r@ == s@,
{
    let r = SplitState {
        name: s.name.clone(),
        source_node_id: s.source_node_id,
        source_node_name: s.source_node_name.clone(),
        source_application_name: s.source_application_name.clone(),
        recording_loopback_name: s.recording_loopback_name.clone(),
        local_loopback_name: s.local_loopback_name.clone(),
        recording_dest_node_id: s.recording_dest_node_id,
        recording_dest_media_name: s.recording_dest_media_name.clone(),
        recording_dest_application_name: s.recording_dest_application_name.clone(),
        original_output_node_name: s.original_output_node_name.clone(),
        original_links: crate::state::clone_saved_links(&s.original_links),
        loopback_to_recording_pid: s.loopback_to_recording_pid,
        loopback_to_local_pid: s.loopback_to_local_pid,
        created_at: s.created_at,
    };
    r
}

impl App {
    /// A fresh session over one snapshot: the source and destination lists
    /// extracted, nothing selected, nothing active.
    pub fn new(objects: &Vec<PwObject>) -> (r: App)
        ensures
            r.state matches AppState::SelectSource,
            r.sources@.map_values(|a: AudioSource| a@) == spec_sources(objects@),
            r.destinations@.map_values(|a: RecordingDest| a@) == spec_dests(objects@),
            r.selected_source_idx == 0,
            r.selected_dest_idx == 0,
            r.selected_source is None,
            r.selected_dest is None,
            r.source_connections@.len() == 0,
            r.active_split is None,
            r.status_message@ == Seq::<char>::empty(),
            r.should_quit == false,
            spec_app_inv(r),
    {
        let sources = extract_audio_sources(objects);
        let destinations = extract_recording_dests(objects);
        App {
            state: AppState::SelectSource,
            sources,
            destinations,
            selected_source_idx: 0,
            selected_dest_idx: 0,
            selected_source: None,
            selected_dest: None,
            source_connections: Vec::new(),
            active_split: None,
            status_message: String::new(),
            should_quit: false,
        }
    }

    /// Re-reads the source and destination lists from a fresh snapshot and
    /// clamps both cursors back into range.
    pub fn refresh(&mut self, objects: &Vec<PwObject>)
        ensures
            final(self).sources@.map_values(|a: AudioSource| a@) == spec_sources(objects@),
            final(self).destinations@.map_values(|a: RecordingDest| a@) == spec_dests(objects@),
            final(self).selected_source_idx as int == spec_clamp_idx(
                old(self).selected_source_idx as int,
                final(self).sources@.len() as int,
            ),
            final(self).selected_dest_idx as int == spec_clamp_idx(
                old(self).selected_dest_idx as int,
                final(self).destinations@.len() as int,
            ),
            final(self).state == old(self).state,
            spec_same_choices(*old(self), *final(self)),
            final(self).status_message == old(self).status_message,
            final(self).should_quit == old(self).should_quit,
            spec_app_inv(*final(self)),
    {
        self.sources = extract_audio_sources(objects);
        self.destinations = extract_recording_dests(objects);
        if self.selected_source_idx >= self.sources.len() {
            self.selected_source_idx = if self.sources.len() == 0 {
                0
            } else {
                self.sources.len() - 1
            };
        }
        if self.selected_dest_idx >= self.destinations.len() {
            self.selected_dest_idx = if self.destinations.len() == 0 {
                0
            } else {
                self.destinations.len() - 1
            };
        }
    }

    /// Moves the cursor of the list being chosen from one step up.
    pub fn select_prev(&mut self)
        ensures
            (old(self).state matches AppState::SelectSource ==> final(self).selected_source_idx
                as int == (if old(self).selected_source_idx > 0 {
                old(self).selected_source_idx - 1
            } else {
                0int
            }) && final(self).selected_dest_idx == old(self).selected_dest_idx),
            (old(self).state matches AppState::SelectDestination ==> final(self).selected_dest_idx
                as int == (if old(self).selected_dest_idx > 0 {
                old(self).selected_dest_idx - 1
            } else {
                0int
            }) && final(self).selected_source_idx == old(self).selected_source_idx),
            (!(old(self).state matches AppState::SelectSource) && !(old(self).state
                matches AppState::SelectDestination) ==> final(self).selected_source_idx == old(self).selected_source_idx && final(self).selected_dest_idx == old(self).selected_dest_idx),
            final(self).state == old(self).state,
            final(self).sources == old(self).sources,
            final(self).destinations == old(self).destinations,
            spec_same_choices(*old(self), *final(self)),
            final(self).status_message == old(self).status_message,
            final(self).should_quit == old(self).should_quit,
            spec_app_inv(*old(self)) ==> spec_app_inv(*final(self)),
    {
        match self.state {
            AppState::SelectSource => {
                if self.selected_source_idx > 0 {
                    self.selected_source_idx = self.selected_source_idx - 1;
                }
            },
            AppState::SelectDestination => {
                if self.selected_dest_idx > 0 {
                    self.selected_dest_idx = self.selected_dest_idx - 1;
                }
            },
            _ => {},
        }
    }

    /// Moves the cursor of the list being chosen from one step down.
    pub fn select_next(&mut self)
        ensures
            (old(self).state matches AppState::SelectSource ==> final(self).selected_source_idx
                as int == (if old(self).sources@.len() > 0 && (old(self).selected_source_idx as int)
                < old(self).sources@.len() - 1 {
                old(self).selected_source_idx + 1
            } else {
                old(self).selected_source_idx as int
            }) && final(self).selected_dest_idx == old(self).selected_dest_idx),
            (old(self).state matches AppState::SelectDestination ==> final(self).selected_dest_idx
                as int == (if old(self).destinations@.len() > 0 && (old(self).selected_dest_idx
                as int) < old(self).destinations@.len() - 1 {
                old(self).selected_dest_idx + 1
            } else {
                old(self).selected_dest_idx as int
            }) && final(self).selected_source_idx == old(self).selected_source_idx),
            (!(old(self).state matches AppState::SelectSource) && !(old(self).state
                matches AppState::SelectDestination) ==> final(self).selected_source_idx == old(self).selected_source_idx && final(self).selected_dest_idx == old(self).selected_dest_idx),
            final(self).state == old(self).state,
            final(self).sources == old(self).sources,
            final(self).destinations == old(self).destinations,
            spec_same_choices(*old(self), *final(self)),
            final(self).status_message == old(self).status_message,
            final(self).should_quit == old(self).should_quit,
            spec_app_inv(*old(self)) ==> spec_app_inv(*final(self)),
    {
        match self.state {
            AppState::SelectSource => {
                if self.sources.len() > 0 && self.selected_source_idx < self.sources.len() - 1 {
                    self.selected_source_idx = self.selected_source_idx + 1;
                }
            },
            AppState::SelectDestination => {
                if self.destinations.len() > 0 && self.selected_dest_idx < self.destinations.len()
                    - 1 {
                    self.selected_dest_idx = self.selected_dest_idx + 1;
                }
            },
            _ => {},
        }
    }

    /// Steps back one screen: dropping the choice just made; an active
    /// split cannot be backed out of, it must be stopped.
    pub fn go_back(&mut self)
        ensures
            (old(self).state matches AppState::SelectDestination ==> final(self).state
                matches AppState::SelectSource && final(self).selected_source is None && final(self).source_connections@.len() == 0 && final(self).selected_dest == old(self).selected_dest && final(self).active_split == old(self).active_split),
            (old(self).state matches AppState::Confirm ==> final(self).state
                matches AppState::SelectDestination && final(self).selected_dest is None && final(self).selected_source == old(self).selected_source && final(self).source_connections == old(self).source_connections && final(self).active_split == old(self).active_split),
            (!(old(self).state matches AppState::SelectDestination) && !(old(self).state
                matches AppState::Confirm) ==> final(self).state == old(self).state
                && spec_same_choices(*old(self), *final(self))),
            spec_same_lists(*old(self), *final(self)),
            final(self).status_message@ == Seq::<char>::empty(),
            final(self).should_quit == old(self).should_quit,
            spec_app_inv(*old(self)) ==> spec_app_inv(*final(self)),
    {
        match self.state {
            AppState::SelectDestination => {
                self.selected_source = None;
                self.source_connections = Vec::new();
                self.state = AppState::SelectSource;
            },
            AppState::Confirm => {
                self.selected_dest = None;
                self.state = AppState::SelectDestination;
            },
            _ => {},
        }
        self.status_message = String::new();
    }
}

/// Nothing about the session changed.
pub open spec fn spec_unchanged(o: App, n: App) -> bool {
    &&& n.state == o.state
    &&& spec_same_rest(o, n)
    &&& n.status_message == o.status_message
}

/// What `confirm_selection` promises, screen by screen.
pub open spec fn spec_confirm_post(o: App, n: App, objs: Seq<PwObject>, r: Option<AppAction>) -> bool {
    match o.state {
        AppState::SelectSource => if o.sources@.len() == 0 {
            &&& r is None
            &&& n.state == o.state
            &&& spec_same_lists(o, n)
            &&& spec_same_choices(o, n)
            &&& n.should_quit == o.should_quit
            &&& n.status_message@ == "No audio sources available"@
        } else {
            let src = o.sources@[o.selected_source_idx as int];
            &&& r is None
            &&& n.state matches AppState::SelectDestination
            &&& n.selected_source == Some(src)
            &&& n.source_connections@.map_values(|c: SourceConnection| c@) == spec_connections(
                src.node_id,
                objs,
            )
            &&& n.selected_dest == o.selected_dest
            &&& n.active_split == o.active_split
            &&& spec_same_lists(o, n)
            &&& n.status_message@ == Seq::<char>::empty()
            &&& n.should_quit == o.should_quit
        },
        AppState::SelectDestination => if o.destinations@.len() == 0 {
            &&& r is None
            &&& n.state == o.state
            &&& spec_same_lists(o, n)
            &&& spec_same_choices(o, n)
            &&& n.should_quit == o.should_quit
            &&& n.status_message@ == "No recording destinations available"@
        } else {
            &&& r is None
            &&& n.state matches AppState::Confirm
            &&& n.selected_dest == Some(o.destinations@[o.selected_dest_idx as int])
            &&& n.selected_source == o.selected_source
            &&& n.source_connections == o.source_connections
            &&& n.active_split == o.active_split
            &&& spec_same_lists(o, n)
            &&& n.status_message@ == Seq::<char>::empty()
            &&& n.should_quit == o.should_quit
        },
        AppState::Confirm => match o.selected_source {
            None => {
                &&& r is None
                &&& (n.state matches AppState::Error(m) && m@ == "No source selected"@)
                &&& spec_same_lists(o, n)
                &&& spec_same_choices(o, n)
                &&& n.status_message == o.status_message
                &&& n.should_quit == o.should_quit
            },
            Some(src) => match o.selected_dest {
                None => {
                    &&& r is None
                    &&& (n.state matches AppState::Error(m) && m@ == "No destination selected"@)
                    &&& spec_same_lists(o, n)
                    &&& spec_same_choices(o, n)
                    &&& n.status_message == o.status_message
                    &&& n.should_quit == o.should_quit
                },
                Some(dst) => if o.source_connections@.len() > 0 {
                    &&& (r matches Some(AppAction::RunSetup(cfg)) && cfg.source == src
                        && cfg.recording_dest == dst && cfg.original_connections@.map_values(
                        |c: SourceConnection| c@,
                    ) == o.source_connections@.map_values(|c: SourceConnection| c@))
                    &&& spec_unchanged(o, n)
                } else {
                    let sinks = spec_sinks(objs);
                    if sinks.len() > 0 {
                        &&& (r matches Some(AppAction::RunSetup(cfg)) && cfg.source == src
                            && cfg.recording_dest == dst && cfg.original_connections@.len() == 1
                            && cfg.original_connections@[0]@.source_node_id == src.node_id
                            && cfg.original_connections@[0]@.target_node_id == sinks[0].node_id
                            && cfg.original_connections@[0]@.target_node_name
                            == sinks[0].node_name && cfg.original_connections@[0]@.links.len()
                            == 0)
                        &&& spec_unchanged(o, n)
                    } else {
                        &&& r is None
                        &&& (n.state matches AppState::Error(m) && m@
                            == "No output sinks available"@)
                        &&& spec_same_lists(o, n)
                        &&& spec_same_choices(o, n)
                        &&& n.status_message == o.status_message
                        &&& n.should_quit == o.should_quit
                    }
                },
            },
        },
        AppState::Active => match o.active_split {
            Some(st) => (r matches Some(AppAction::RunTeardown(st2)) && st2@ == st@)
                && spec_unchanged(o, n),
            None => r is None && spec_unchanged(o, n),
        },
        _ => r is None && spec_unchanged(o, n),
    }
}

impl App {
    /// Confirms the current screen: records a choice, or asks the caller to
    /// set the split up (from the Confirm screen) or tear it down (from the
    /// Active screen).  The machine itself changes no wiring.
    pub fn confirm_selection(&mut self, objects: &Vec<PwObject>) -> (r: Option<AppAction>)
        requires
            spec_app_inv(*old(self)),
        ensures
            spec_confirm_post(*old(self), *final(self), objects@, r),
            spec_app_inv(*final(self)),
    {
        match self.state {
            AppState::SelectSource => {
                if self.sources.len() == 0 {
                    self.status_message = String::from_str("No audio sources available");
                    return None;
                }
                let src = dup_source(&self.sources[self.selected_source_idx]);
                let conns = find_source_connections(src.node_id, objects);
                self.source_connections = conns;
                self.selected_source = Some(src);
                self.state = AppState::SelectDestination;
                self.status_message = String::new();
                None
            },
            AppState::SelectDestination => {
                if self.destinations.len() == 0 {
                    self.status_message = String::from_str("No recording destinations available");
                    return None;
                }
                let dst = dup_dest(&self.destinations[self.selected_dest_idx]);
                self.selected_dest = Some(dst);
                self.state = AppState::Confirm;
                self.status_message = String::new();
                None
            },
            AppState::Confirm => {
                let src = match &self.selected_source {
                    Some(s) => dup_source(s),
                    None => {
                        self.state = AppState::Error(String::from_str("No source selected"));
                        return None;
                    },
                };
                let dst = match &self.selected_dest {
                    Some(d) => dup_dest(d),
                    None => {
                        self.state = AppState::Error(String::from_str("No destination selected"));
                        return None;
                    },
                };
                let connections = if self.source_connections.len() > 0 {
                    dup_connections(&self.source_connections)
                } else {
                    let sinks = extract_audio_sinks(objects);
                    if sinks.len() > 0 {
                        proof {
                            assert(sinks@.map_values(|a: crate::graph::AudioSink| a@)[0]
                                == sinks@[0]@);
                        }
                        let mut v: Vec<SourceConnection> = Vec::new();
                        v.push(
                            SourceConnection {
                                source_node_id: src.node_id,
                                target_node_id: sinks[0].node_id,
                                target_node_name: sinks[0].node_name.clone(),
                                links: Vec::new(),
                            },
                        );
                        v
                    } else {
                        self.state = AppState::Error(
                            String::from_str("No output sinks available"),
                        );
                        return None;
                    }
                };
                Some(
                    AppAction::RunSetup(
                        SplitConfig {
                            source: src,
                            recording_dest: dst,
                            original_connections: connections,
                        },
                    ),
                )
            },
            AppState::Active => {
                match &self.active_split {
                    Some(st) => {
                        let d = dup_split_state(st);
                        Some(AppAction::RunTeardown(d))
                    },
                    None => None,
                }
            },
            _ => None,
        }
    }

    /// Probes decided outside, decisions made here: which relay to respawn
    /// and rewire.  Without an active split there is nothing to check.
    pub fn check_and_restart_loopbacks(
        &mut self,
        recording_running: bool,
        local_running: bool,
    ) -> (r: Option<HealthPlan>)
        ensures
            (old(self).active_split is Some ==> (r matches Some(p) && p.respawn_recording
                == !recording_running && p.rewire_recording == !recording_running
                && p.respawn_local == !local_running && p.rewire_local == false)),
            (old(self).active_split is None ==> r is None),
            spec_unchanged(*old(self), *final(self)),
    {
        match &self.active_split {
            Some(_) => Some(health_check(recording_running, local_running)),
            None => None,
        }
    }

    /// Folds a setup attempt's outcome back in: an active split on success,
    /// an error screen on failure.
    pub fn apply_setup_outcome(&mut self, outcome: Result<SplitState, String>)
        ensures
            (outcome matches Ok(st) ==> final(self).active_split == Some(st) && (final(self).state matches AppState::Active) && final(self).status_message@
                == "Split active! Adjust volume in pwvucontrol"@),
            (outcome matches Err(m) ==> (final(self).state matches AppState::Error(e) && e@
                == "Failed to create split: "@ + m@) && final(self).active_split == old(self).active_split && final(self).status_message == old(self).status_message),
            spec_same_lists(*old(self), *final(self)),
            final(self).selected_source == old(self).selected_source,
            final(self).selected_dest == old(self).selected_dest,
            final(self).source_connections == old(self).source_connections,
            final(self).should_quit == old(self).should_quit,
    {
        match outcome {
            Ok(st) => {
                self.active_split = Some(st);
                self.state = AppState::Active;
                self.status_message = String::from_str("Split active! Adjust volume in pwvucontrol");
            },
            Err(m) => {
                let e = String::from_str("Failed to create split: ").concat(m.as_str());
                self.state = AppState::Error(e);
            },
        }
    }

    /// Folds a teardown attempt's outcome back in: done on success, a
    /// status note on failure (the split stays active).
    pub fn apply_teardown_outcome(&mut self, outcome: Result<(), String>)
        ensures
            (outcome matches Ok(u) ==> final(self).active_split is None && (final(self).state matches AppState::Done) && final(self).status_message@
                == "Split stopped successfully"@),
            (outcome matches Err(m) ==> final(self).state == old(self).state && final(self).active_split == old(self).active_split && final(self).status_message@
                == "Failed to stop split: "@ + m@),
            spec_same_lists(*old(self), *final(self)),
            final(self).selected_source == old(self).selected_source,
            final(self).selected_dest == old(self).selected_dest,
            final(self).source_connections == old(self).source_connections,
            final(self).should_quit == old(self).should_quit,
    {
        match outcome {
            Ok(_) => {
                self.status_message = String::from_str("Split stopped successfully");
                self.active_split = None;
                self.state = AppState::Done;
            },
            Err(m) => {
                self.status_message = String::from_str("Failed to stop split: ").concat(
                    m.as_str(),
                );
            },
        }
    }
}

impl Default for App {
    /// An empty session: no lists yet, nothing selected, nothing active.
    fn default() -> (r: App)
        ensures
            r.state matches AppState::SelectSource,
            r.sources@.len() == 0,
            r.destinations@.len() == 0,
            r.selected_source_idx == 0,
            r.selected_dest_idx == 0,
            r.selected_source is None,
            r.selected_dest is None,
            r.source_connections@.len() == 0,
            r.active_split is None,
            r.status_message@ == Seq::<char>::empty(),
            r.should_quit == false,
            spec_app_inv(r),
    {
        App {
            state: AppState::SelectSource,
            sources: Vec::new(),
            destinations: Vec::new(),
            selected_source_idx: 0,
            selected_dest_idx: 0,
            selected_source: None,
            selected_dest: None,
            source_connections: Vec::new(),
            active_split: None,
            status_message: String::new(),
            should_quit: false,
        }
    }
}

} // verus!
