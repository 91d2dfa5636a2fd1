//! The durable record of one active split, and the naming rules of the
//! store that keeps one file per split.
//!
//! The record is self-sufficient for restoration: it carries the exact
//! port-to-port pairs that were severed at setup time and both relay
//! process ids.  Reading and writing files is the surrounding
//! application's job; this module owns the naming and the content.

use vstd::prelude::*;
use vstd::set_lib::lemma_len_subset;
use vstd::seq_lib::seq_to_set_is_finite;
use vstd::string::StringExecFns;
use crate::text::{str_eq, u64_to_string, spec_dec, join_with, lemma_dec_injective};

verus! {

/// One severed port-to-port pair, captured at severing time in the
/// addressable `node:port` form and never recomputed later.
#[derive(Debug, Clone)]
pub struct SavedLink {
    pub output_port: String,
    pub input_port: String,
}

/// Mathematical image of a [`SavedLink`].
pub ghost struct SavedLinkV {
    pub output_port: Seq<char>,
    pub input_port: Seq<char>,
}

impl View for SavedLink {
    type V = SavedLinkV;

    open spec fn view(&self) -> SavedLinkV {
        SavedLinkV { output_port: self.output_port@, input_port: self.input_port@ }
    }
}

/// The durable description of one active split, sufficient to reverse it.
#[derive(Debug, Clone)]
pub struct SplitState {
    /// Unique name of this split (derived from the source's name).
    pub name: String,
    /// The source node at setup time.
    pub source_node_id: u32,
    pub source_node_name: String,
    pub source_application_name: String,
    /// The two relay identities, for reconnecting after a restart.
    pub recording_loopback_name: String,
    pub local_loopback_name: String,
    /// The recording destination at setup time.
    pub recording_dest_node_id: u32,
    pub recording_dest_media_name: String,
    pub recording_dest_application_name: String,
    /// The original primary target, for restoration.
    pub original_output_node_name: String,
    /// The exact pairs severed at setup time.
    pub original_links: Vec<SavedLink>,
    /// Process ids of the two relays.
    pub loopback_to_recording_pid: u32,
    pub loopback_to_local_pid: u32,
    /// Seconds since the epoch at creation time.
    pub created_at: u64,
}

/// Mathematical image of a [`SplitState`].
pub ghost struct SplitStateV {
    pub name: Seq<char>,
    pub source_node_id: u32,
    pub source_node_name: Seq<char>,
    pub source_application_name: Seq<char>,
    pub recording_loopback_name: Seq<char>,
    pub local_loopback_name: Seq<char>,
    pub recording_dest_node_id: u32,
    pub recording_dest_media_name: Seq<char>,
    pub recording_dest_application_name: Seq<char>,
    pub original_output_node_name: Seq<char>,
    pub original_links: Seq<SavedLinkV>,
    pub loopback_to_recording_pid: u32,
    pub loopback_to_local_pid: u32,
    pub created_at: u64,
}

impl View for SplitState {
    type V = SplitStateV;

    open spec fn view(&self) -> SplitStateV {
        SplitStateV {
            name: self.name@,
            source_node_id: self.source_node_id,
            source_node_name: self.source_node_name@,
            source_application_name: self.source_application_name@,
            recording_loopback_name: self.recording_loopback_name@,
            local_loopback_name: self.local_loopback_name@,
            recording_dest_node_id: self.recording_dest_node_id,
            recording_dest_media_name: self.recording_dest_media_name@,
            recording_dest_application_name: self.recording_dest_application_name@,
            original_output_node_name: self.original_output_node_name@,
            original_links: self.original_links@.map_values(|l: SavedLink| l@),
            loopback_to_recording_pid: self.loopback_to_recording_pid,
            loopback_to_local_pid: self.loopback_to_local_pid,
            created_at: self.created_at,
        }
    }
}

// ---------------------------------------------------------------------------
// Store naming
// ---------------------------------------------------------------------------

/// Whether a name occurs among the names already in use.
pub open spec fn spec_name_taken(name: Seq<char>, existing: Seq<Seq<char>>) -> bool {
    exists|i: int| 0 <= i < existing.len() && existing[i] == name
}

/// The candidate name formed from a base and a numeric suffix.
pub open spec fn spec_numbered_name(base: Seq<char>, k: nat) -> Seq<char> {
    base + "_"@ + spec_dec(k)
}

/// What `generate_unique_name` promises: the result is free, it is the base
/// itself when the base is free, and otherwise it is the base with the
/// smallest numeric suffix whose candidate is free.
pub open spec fn spec_unique_name_ok(base: Seq<char>, ex: Seq<Seq<char>>, r: Seq<char>) -> bool {
    &&& !spec_name_taken(r, ex)
    &&& (!spec_name_taken(base, ex) ==> r == base)
    &&& (spec_name_taken(base, ex) ==> exists|k: nat|
        1 <= k && r == #[trigger] spec_numbered_name(base, k) && (forall|j: nat|
            1 <= j < k ==> spec_name_taken(#[trigger] spec_numbered_name(base, j), ex)))
}

/// Distinct suffixes give distinct candidate names.
pub proof fn lemma_numbered_name_injective(base: Seq<char>, j: nat, k: nat)
    requires
        spec_numbered_name(base, j) == spec_numbered_name(base, k),
    ensures
        j == k,
{
    let p = base + "_"@;
    let s1 = spec_numbered_name(base, j);
    let s2 = spec_numbered_name(base, k);
    assert(s1.len() == p.len() + spec_dec(j).len());
    assert(s2.len() == p.len() + spec_dec(k).len());
    assert(spec_dec(j) =~= s1.subrange(p.len() as int, s1.len() as int));
    assert(spec_dec(k) =~= s2.subrange(p.len() as int, s2.len() as int));
    lemma_dec_injective(j, k);
}

/// A value-preserving copy of a severed-pair list.
pub fn clone_saved_links(v: &Vec<SavedLink>) -> (r: Vec<SavedLink>)
    ensures
        r@ == v@,
{
    let mut r: Vec<SavedLink> = Vec::new();
    let mut i: usize = 0;
    while i < v.len()
        invariant
            i <= v@.len(),
            r@ =~= v@.take(i as int),
        decreases v@.len() - i,
    {
        let l = SavedLink {
            output_port: v[i].output_port.clone(),
            input_port: v[i].input_port.clone(),
        };
        r.push(l);
        proof {
            assert(r@ =~= v@.take(i + 1 as int));
        }
        i = i + 1;
    }
    proof {
        assert(v@.take(v@.len() as int) =~= v@);
    }
    r
}

impl SplitState {
    /// The file a split of this name is kept in, inside the given store
    /// directory.
    pub fn state_file_path(dir: &str, name: &str) -> (r: String)
        ensures
            r@ == dir@ + "/"@ + name@ + ".json"@,
    {
        let s = join_with(dir, "/", name);
        let s = s.concat(".json");
        proof {
            assert(s@ =~= dir@ + "/"@ + name@ + ".json"@);
        }
        s
    }

    /// Whether a split of this name already exists, given the names in use.
    pub fn name_exists(name: &str, existing: &Vec<String>) -> (b: bool)
        ensures
            b == spec_name_taken(name@, existing@.map_values(|s: String| s@)),
    {
        let ghost ex = existing@.map_values(|s: String| s@);
        let mut i: usize = 0;
        while i < existing.len()
            invariant
                i <= existing@.len(),
                ex == existing@.map_values(|s: String| s@),
                forall|j: int| 0 <= j < i ==> ex[j] != name@,
            decreases existing@.len() - i,
        {
            if str_eq(existing[i].as_str(), name) {
                proof {
                    assert(ex[i as int] == name@);
                }
                return true;
            }
            i = i + 1;
        }
        false
    }

    /// Picks a split name not yet in use: the base itself when free, else
    /// the base with the smallest numeric suffix (`base_1`, `base_2`, ...)
    /// whose candidate is free.
    pub fn generate_unique_name(base: &str, existing: &Vec<String>) -> (r: String)
        ensures
            spec_unique_name_ok(base@, existing@.map_values(|s: String| s@), r@),
    {
        let ghost ex = existing@.map_values(|s: String| s@);
        if !Self::name_exists(base, existing) {
            return base.to_owned();
        }
        let ghost exset = ex.to_set();
        let n_existing = existing.len();
        proof {
            seq_to_set_is_finite::<Seq<char>>(ex);
            ex.lemma_cardinality_of_set();
            assert(ex.len() == n_existing as int);
        }
        let mut k: u64 = 1;
        let ghost seen: Set<Seq<char>> = Set::empty();
        let mut seen = Ghost(seen);
        loop
            invariant
                1 <= k,
                k <= existing@.len() + 1,
                ex == existing@.map_values(|s: String| s@),
                exset == ex.to_set(),
                exset.finite(),
                exset.len() <= ex.len(),
                ex.len() <= usize::MAX,
                spec_name_taken(base@, ex),
                seen@.finite(),
                seen@.len() == k - 1,
                seen@.subset_of(exset),
                forall|x: Seq<char>| seen@.contains(x) ==> exists|j: nat|
                    1 <= j < k && x == #[trigger] spec_numbered_name(base@, j),
                forall|j: nat|
                    1 <= j < k ==> spec_name_taken(#[trigger] spec_numbered_name(base@, j), ex),
            decreases existing@.len() + 2 - k,
        {
            let suffix = u64_to_string(k);
            let name = base.to_owned().concat("_").concat(suffix.as_str());
            proof {
                assert(name@ =~= spec_numbered_name(base@, k as nat));
            }
            if !Self::name_exists(name.as_str(), existing) {
                return name;
            }
            proof {
                let ghost nv = name@;
                assert(spec_name_taken(nv, ex));
                let i = choose|i: int| 0 <= i < ex.len() && ex[i] == nv;
                assert(ex.contains(nv));
                assert(exset.contains(nv));
                if seen@.contains(nv) {
                    let j = choose|j: nat|
                        1 <= j < k && nv == #[trigger] spec_numbered_name(base@, j);
                    lemma_numbered_name_injective(base@, j, k as nat);
                    assert(false);
                }
                assert(seen@.insert(nv).len() == seen@.len() + 1);
                lemma_len_subset(seen@.insert(nv), exset);
                let s2 = seen@.insert(nv);
                assert(!s2.contains(base@)) by {
                    if s2.contains(base@) {
                        if base@ == nv {
                            crate::text::lemma_dec_digits(k as nat);
                        } else {
                            let j = choose|j: nat|
                                1 <= j < k && base@ == #[trigger] spec_numbered_name(base@, j);
                            crate::text::lemma_dec_digits(j);
                        }
                    }
                }
                assert(s2.insert(base@).len() == s2.len() + 1);
                assert(s2.insert(base@).subset_of(exset)) by {
                    assert(ex.contains(base@)) by {
                        let b = choose|b: int| 0 <= b < ex.len() && ex[b] == base@;
                    }
                }
                lemma_len_subset(s2.insert(base@), exset);
                assert(k + 1 <= exset.len());
            }
            proof {
                seen@ = seen@.insert(name@);
            }
            k = k + 1;
        }
    }
}

} // verus!
