//! Route planning: port addressing, stereo channel pairing, and the
//! classification of the audio server's link and unlink outcomes.
//!
//! Planners compute, from one snapshot, the exact port-to-port operations a
//! rewiring step needs; the surrounding application executes them.  Both
//! link and unlink are idempotent at the server: the outcome classifiers
//! treat the server's "already connected" and "not connected" failure texts
//! as success, so re-running a plan is harmless.

use vstd::prelude::*;
use vstd::string::StringExecFns;
use crate::error::PwSplitterError;
use crate::graph::{AudioPort, AudioPortV, PortDirection, PwObject};
use crate::graph::{spec_ports, spec_get_node_name, spec_find_node_by_name, spec_node_id};
use crate::graph::{extract_ports, get_node_name, find_node_by_name};
use crate::state::{SavedLink, SavedLinkV};
use crate::text::{str_eq, contains_substring, spec_has_substring, u64_to_string, spec_dec};
use crate::text::join_with;

verus! {

// ---------------------------------------------------------------------------
// Port addressing
// ---------------------------------------------------------------------------

/// The addressable form of a port: `node:port`.
pub open spec fn spec_port_link_name(node: Seq<char>, port: Seq<char>) -> Seq<char> {
    node + ":"@ + port
}

/// Renders a port address in the `node:port` form the server's link tool
/// accepts.
pub fn get_port_link_name(node_name: &str, port_name: &str) -> (r: String)
    ensures
        r@ == spec_port_link_name(node_name@, port_name@),
{
    join_with(node_name, ":", port_name)
}

/// A planned link whose output side is addressed by name and whose input
/// side is addressed by port id (names can collide; ids cannot).
#[derive(Debug, Clone)]
pub struct IdLinkPair {
    pub output_port: String,
    pub input_port_id: u32,
}

/// Mathematical image of an [`IdLinkPair`].
pub ghost struct IdLinkPairV {
    pub output_port: Seq<char>,
    pub input_port_id: u32,
}

impl View for IdLinkPair {
    type V = IdLinkPairV;

    open spec fn view(&self) -> IdLinkPairV {
        IdLinkPairV { output_port: self.output_port@, input_port_id: self.input_port_id }
    }
}

// ---------------------------------------------------------------------------
// Stereo ports
// ---------------------------------------------------------------------------

/// Whether a channel label takes part in routing: only the two stereo
/// labels do.
pub open spec fn spec_is_stereo(c: Seq<char>) -> bool {
    c == "FL"@ || c == "FR"@
}

fn is_stereo_channel(c: &str) -> (b: bool)
    ensures
        b == spec_is_stereo(c@),
{
    str_eq(c, "FL") || str_eq(c, "FR")
}

/// The stereo ports of one node in one direction, in snapshot order.
pub open spec fn spec_stereo_ports(ps: Seq<AudioPortV>, node: u32, dir: PortDirection) -> Seq<
    AudioPortV,
> {
    ps.filter(|p: AudioPortV| p.node_id == node && p.direction == dir && spec_is_stereo(p.channel))
}

/// Selects the stereo ports of one node in one direction.
pub fn stereo_ports_of_node(ports: &Vec<AudioPort>, node: u32, dir: PortDirection) -> (r: Vec<AudioPort>)
    ensures
        r@.map_values(|p: AudioPort| p@) == spec_stereo_ports(
            ports@.map_values(|p: AudioPort| p@),
            node,
            dir,
        ),
{
    let ghost pv = ports@.map_values(|p: AudioPort| p@);
    let mut r: Vec<AudioPort> = Vec::new();
    let mut i: usize = 0;
    while i < ports.len()
        invariant
            i <= ports@.len(),
            pv == ports@.map_values(|p: AudioPort| p@),
            pv.len() == ports@.len(),
            r@.map_values(|p: AudioPort| p@) =~= spec_stereo_ports(pv.take(i as int), node, dir),
        decreases ports@.len() - i,
    {
        let ghost prefix = pv.take(i as int);
        proof {
            assert(pv[i as int] == ports@[i as int]@);
        }
        let p = &ports[i];
        if p.node_id == node && p.direction == dir && is_stereo_channel(p.channel.as_str()) {
            let q = AudioPort {
                port_id: p.port_id,
                node_id: p.node_id,
                port_name: p.port_name.clone(),
                channel: p.channel.clone(),
                direction: p.direction,
            };
            r.push(q);
        }
        proof {
            reveal(Seq::filter);
            assert(pv.take(i + 1 as int).drop_last() =~= prefix);
            assert(pv.take(i + 1 as int).last() == pv[i as int]);
        }
        i = i + 1;
    }
    proof {
        assert(pv.take(pv.len() as int) =~= pv);
    }
    r
}

// ---------------------------------------------------------------------------
// Channel pairing
// ---------------------------------------------------------------------------

/// The name-addressed pairs of one output port against every input port
/// that carries the same channel label.
pub open spec fn spec_pairs_one(
    o: AudioPortV,
    ins: Seq<AudioPortV>,
    out_name: Seq<char>,
    in_name: Seq<char>,
) -> Seq<SavedLinkV>
    decreases ins.len(),
{
    if ins.len() == 0 {
        Seq::empty()
    } else {
        let rest = spec_pairs_one(o, ins.drop_last(), out_name, in_name);
        if ins.last().channel == o.channel {
            rest.push(
                SavedLinkV {
                    output_port: spec_port_link_name(out_name, o.port_name),
                    input_port: spec_port_link_name(in_name, ins.last().port_name),
                },
            )
        } else {
            rest
        }
    }
}

/// All name-addressed pairs of matching channels, outputs outermost.
pub open spec fn spec_name_pairs(
    outs: Seq<AudioPortV>,
    ins: Seq<AudioPortV>,
    out_name: Seq<char>,
    in_name: Seq<char>,
) -> Seq<SavedLinkV>
    decreases outs.len(),
{
    if outs.len() == 0 {
        Seq::empty()
    } else {
        spec_name_pairs(outs.drop_last(), ins, out_name, in_name) + spec_pairs_one(
            outs.last(),
            ins,
            out_name,
            in_name,
        )
    }
}

/// The id-addressed pairs of one output port against every matching input.
pub open spec fn spec_id_pairs_one(o: AudioPortV, ins: Seq<AudioPortV>, out_name: Seq<char>) -> Seq<
    IdLinkPairV,
>
    decreases ins.len(),
{
    if ins.len() == 0 {
        Seq::empty()
    } else {
        let rest = spec_id_pairs_one(o, ins.drop_last(), out_name);
        if ins.last().channel == o.channel {
            rest.push(
                IdLinkPairV {
                    output_port: spec_port_link_name(out_name, o.port_name),
                    input_port_id: ins.last().port_id,
                },
            )
        } else {
            rest
        }
    }
}

/// All id-addressed pairs of matching channels, outputs outermost.
pub open spec fn spec_id_pairs(
    outs: Seq<AudioPortV>,
    ins: Seq<AudioPortV>,
    out_name: Seq<char>,
) -> Seq<IdLinkPairV>
    decreases outs.len(),
{
    if outs.len() == 0 {
        Seq::empty()
    } else {
        spec_id_pairs(outs.drop_last(), ins, out_name) + spec_id_pairs_one(
            outs.last(),
            ins,
            out_name,
        )
    }
}

/// Builds every name-addressed pair of matching stereo channels.
fn build_name_pairs(
    outs: &Vec<AudioPort>,
    ins: &Vec<AudioPort>,
    out_name: &str,
    in_name: &str,
) -> (r: Vec<SavedLink>)
    ensures
        r@.map_values(|x: SavedLink| x@) == spec_name_pairs(
            outs@.map_values(|p: AudioPort| p@),
            ins@.map_values(|p: AudioPort| p@),
            out_name@,
            in_name@,
        ),
{
    let ghost ov = outs@.map_values(|p: AudioPort| p@);
    let ghost iv = ins@.map_values(|p: AudioPort| p@);
    let mut r: Vec<SavedLink> = Vec::new();
    let mut i: usize = 0;
    while i < outs.len()
        invariant
            i <= outs@.len(),
            ov == outs@.map_values(|p: AudioPort| p@),
            iv == ins@.map_values(|p: AudioPort| p@),
            ov.len() == outs@.len(),
            iv.len() == ins@.len(),
            r@.map_values(|x: SavedLink| x@) =~= spec_name_pairs(
                ov.take(i as int),
                iv,
                out_name@,
                in_name@,
            ),
        decreases outs@.len() - i,
    {
        proof {
            assert(ov[i as int] == outs@[i as int]@);
        }
        let mut k: usize = 0;
        while k < ins.len()
            invariant
                i < outs@.len(),
                k <= ins@.len(),
                ov == outs@.map_values(|p: AudioPort| p@),
                iv == ins@.map_values(|p: AudioPort| p@),
                ov.len() == outs@.len(),
                iv.len() == ins@.len(),
                ov[i as int] == outs@[i as int]@,
                r@.map_values(|x: SavedLink| x@) =~= spec_name_pairs(
                    ov.take(i as int),
                    iv,
                    out_name@,
                    in_name@,
                ) + spec_pairs_one(ov[i as int], iv.take(k as int), out_name@, in_name@),
            decreases ins@.len() - k,
        {
            let ghost iprefix = iv.take(k as int);
            proof {
                assert(iv[k as int] == ins@[k as int]@);
            }
            let ghost r_old = r@;
            if str_eq(outs[i].channel.as_str(), ins[k].channel.as_str()) {
                let op = get_port_link_name(out_name, outs[i].port_name.as_str());
                let ip = get_port_link_name(in_name, ins[k].port_name.as_str());
                let sl = SavedLink { output_port: op, input_port: ip };
                let ghost slv = sl@;
                r.push(sl);
                proof {
                    assert(slv.output_port == spec_port_link_name(
                        out_name@,
                        ov[i as int].port_name,
                    ));
                    assert(slv.input_port == spec_port_link_name(in_name@, iv[k as int].port_name));
                    assert(r@ =~= r_old.push(sl));
                    assert(r@.map_values(|x: SavedLink| x@) =~= r_old.map_values(
                        |x: SavedLink| x@,
                    ).push(slv));
                }
            }
            proof {
                assert(iv.take(k + 1 as int).drop_last() =~= iprefix);
                assert(iv.take(k + 1 as int).last() == iv[k as int]);
            }
            k = k + 1;
        }
        proof {
            assert(iv.take(iv.len() as int) =~= iv);
            assert(ov.take(i + 1 as int).drop_last() =~= ov.take(i as int));
            assert(ov.take(i + 1 as int).last() == ov[i as int]);
        }
        i = i + 1;
    }
    proof {
        assert(ov.take(ov.len() as int) =~= ov);
    }
    r
}

/// Builds every id-addressed pair of matching stereo channels.
fn build_id_pairs(outs: &Vec<AudioPort>, ins: &Vec<AudioPort>, out_name: &str) -> (r: Vec<IdLinkPair>)
    ensures
        r@.map_values(|x: IdLinkPair| x@) == spec_id_pairs(
            outs@.map_values(|p: AudioPort| p@),
            ins@.map_values(|p: AudioPort| p@),
            out_name@,
        ),
{
    let ghost ov = outs@.map_values(|p: AudioPort| p@);
    let ghost iv = ins@.map_values(|p: AudioPort| p@);
    let mut r: Vec<IdLinkPair> = Vec::new();
    let mut i: usize = 0;
    while i < outs.len()
        invariant
            i <= outs@.len(),
            ov == outs@.map_values(|p: AudioPort| p@),
            iv == ins@.map_values(|p: AudioPort| p@),
            ov.len() == outs@.len(),
            iv.len() == ins@.len(),
            r@.map_values(|x: IdLinkPair| x@) =~= spec_id_pairs(ov.take(i as int), iv, out_name@),
        decreases outs@.len() - i,
    {
        proof {
            assert(ov[i as int] == outs@[i as int]@);
        }
        let mut k: usize = 0;
        while k < ins.len()
            invariant
                i < outs@.len(),
                k <= ins@.len(),
                ov == outs@.map_values(|p: AudioPort| p@),
                iv == ins@.map_values(|p: AudioPort| p@),
                ov.len() == outs@.len(),
                iv.len() == ins@.len(),
                ov[i as int] == outs@[i as int]@,
                r@.map_values(|x: IdLinkPair| x@) =~= spec_id_pairs(
                    ov.take(i as int),
                    iv,
                    out_name@,
                ) + spec_id_pairs_one(ov[i as int], iv.take(k as int), out_name@),
            decreases ins@.len() - k,
        {
            let ghost iprefix = iv.take(k as int);
            proof {
                assert(iv[k as int] == ins@[k as int]@);
            }
            let ghost r_old = r@;
            if str_eq(outs[i].channel.as_str(), ins[k].channel.as_str()) {
                let op = get_port_link_name(out_name, outs[i].port_name.as_str());
                let sl = IdLinkPair { output_port: op, input_port_id: ins[k].port_id };
                let ghost slv = sl@;
                r.push(sl);
                proof {
                    assert(slv.output_port == spec_port_link_name(
                        out_name@,
                        ov[i as int].port_name,
                    ));
                    assert(slv.input_port_id == iv[k as int].port_id);
                    assert(r@ =~= r_old.push(sl));
                    assert(r@.map_values(|x: IdLinkPair| x@) =~= r_old.map_values(
                        |x: IdLinkPair| x@,
                    ).push(slv));
                }
            }
            proof {
                assert(iv.take(k + 1 as int).drop_last() =~= iprefix);
                assert(iv.take(k + 1 as int).last() == iv[k as int]);
            }
            k = k + 1;
        }
        proof {
            assert(iv.take(iv.len() as int) =~= iv);
            assert(ov.take(i + 1 as int).drop_last() =~= ov.take(i as int));
            assert(ov.take(i + 1 as int).last() == ov[i as int]);
        }
        i = i + 1;
    }
    proof {
        assert(ov.take(ov.len() as int) =~= ov);
    }
    r
}

// ---------------------------------------------------------------------------
// Outcome classification
// ---------------------------------------------------------------------------

/// Classifies a link attempt's outcome.  A failure whose text reports the
/// pair as already connected is benign: linking is idempotent.
pub fn create_link_outcome(success: bool, stderr: &str) -> (r: Result<(), PwSplitterError>)
    ensures
        (r is Ok) == (success || spec_has_substring(stderr@, "File exists"@)),
        (r matches Err(e) ==> (e matches PwSplitterError::LinkCreationFailed(m) && m@ == stderr@)),
{
    if success {
        Ok(())
    } else if contains_substring(stderr, "File exists") {
        Ok(())
    } else {
        Err(PwSplitterError::LinkCreationFailed(stderr.to_owned()))
    }
}

/// Classifies an id-addressed link attempt's outcome, naming the pair in
/// the error.
pub fn create_link_by_id_outcome(
    success: bool,
    stderr: &str,
    output_port: &str,
    input_port_id: u32,
) -> (r: Result<(), PwSplitterError>)
    ensures
        (r is Ok) == (success || spec_has_substring(stderr@, "File exists"@)),
        (r matches Err(e) ==> (e matches PwSplitterError::LinkCreationFailed(m) && m@
            == spec_link_by_id_error(output_port@, input_port_id, stderr@))),
{
    if success {
        Ok(())
    } else if contains_substring(stderr, "File exists") {
        Ok(())
    } else {
        let m = String::from_str("Failed to link ").concat(output_port).concat(" -> ");
        let d = u64_to_string(input_port_id as u64);
        let m = m.concat(d.as_str()).concat(": ").concat(stderr);
        proof {
            assert(m@ =~= spec_link_by_id_error(output_port@, input_port_id, stderr@));
        }
        Err(PwSplitterError::LinkCreationFailed(m))
    }
}

/// The error text of a failed id-addressed link attempt.
pub open spec fn spec_link_by_id_error(out: Seq<char>, id: u32, stderr: Seq<char>) -> Seq<char> {
    "Failed to link "@ + out + " -> "@ + spec_dec(id as nat) + ": "@ + stderr
}

/// Classifies an unlink attempt's outcome.  A failure whose text reports
/// the pair as not connected, or says nothing, is benign: unlinking is
/// idempotent.
pub fn destroy_link_outcome(success: bool, stderr: &str) -> (r: Result<(), PwSplitterError>)
    ensures
        (r is Ok) == (success || stderr@.len() == 0 || spec_has_substring(
            stderr@,
            "No such file"@,
        )),
        (r matches Err(e) ==> (e matches PwSplitterError::LinkDestroyFailed(m) && m@ == stderr@)),
{
    if success {
        Ok(())
    } else if stderr.is_empty() {
        Ok(())
    } else if contains_substring(stderr, "No such file") {
        Ok(())
    } else {
        Err(PwSplitterError::LinkDestroyFailed(stderr.to_owned()))
    }
}

// ---------------------------------------------------------------------------
// Keeping what was severed
// ---------------------------------------------------------------------------

/// The pairs whose unlink attempt went through, in order.
pub open spec fn spec_kept(ps: Seq<SavedLinkV>, ok: Seq<bool>) -> Seq<SavedLinkV>
    recommends
        ps.len() == ok.len(),
    decreases ps.len(),
{
    if ps.len() == 0 {
        Seq::empty()
    } else {
        let rest = spec_kept(ps.drop_last(), ok.drop_last());
        if ok.len() >= 1 && ok.last() {
            rest.push(ps.last())
        } else {
            rest
        }
    }
}

/// Keeps the pairs whose unlink attempt went through: only those belong in
/// the record of severed links.
pub fn kept_links(pairs: &Vec<SavedLink>, ok: &Vec<bool>) -> (r: Vec<SavedLink>)
    requires
        pairs@.len() == ok@.len(),
    ensures
        r@.map_values(|x: SavedLink| x@) == spec_kept(
            pairs@.map_values(|x: SavedLink| x@),
            ok@,
        ),
{
    let ghost pv = pairs@.map_values(|x: SavedLink| x@);
    let mut r: Vec<SavedLink> = Vec::new();
    let mut i: usize = 0;
    while i < pairs.len()
        invariant
            i <= pairs@.len(),
            pairs@.len() == ok@.len(),
            pv == pairs@.map_values(|x: SavedLink| x@),
            pv.len() == pairs@.len(),
            r@.map_values(|x: SavedLink| x@) =~= spec_kept(pv.take(i as int), ok@.take(i as int)),
        decreases pairs@.len() - i,
    {
        proof {
            assert(pv[i as int] == pairs@[i as int]@);
        }
        let ghost r_old = r@;
        if ok[i] {
            let sl = SavedLink {
                output_port: pairs[i].output_port.clone(),
                input_port: pairs[i].input_port.clone(),
            };
            let ghost slv = sl@;
            r.push(sl);
            proof {
                assert(slv == pv[i as int]);
                assert(r@ =~= r_old.push(sl));
                assert(r@.map_values(|x: SavedLink| x@) =~= r_old.map_values(
                    |x: SavedLink| x@,
                ).push(slv));
            }
        }
        proof {
            assert(pv.take(i + 1 as int).drop_last() =~= pv.take(i as int));
            assert(ok@.take(i + 1 as int).drop_last() =~= ok@.take(i as int));
            assert(pv.take(i + 1 as int).last() == pv[i as int]);
            assert(ok@.take(i + 1 as int).last() == ok@[i as int]);
        }
        i = i + 1;
    }
    proof {
        assert(pv.take(pv.len() as int) =~= pv);
        assert(ok@.take(ok@.len() as int) =~= ok@);
    }
    r
}

// ---------------------------------------------------------------------------
// Finding the halves of a named relay
// ---------------------------------------------------------------------------

/// Whether the object is a node whose description contains both the relay
/// name and the given role marker.
pub open spec fn spec_desc_role_node(o: PwObject, lb: Seq<char>, role: Seq<char>) -> bool {
    match o {
        PwObject::Node(n) => match n.info {
            Some(info) => match info.props {
                Some(props) => match props.node_description {
                    Some(d) => spec_has_substring(d@, lb) && spec_has_substring(d@, role),
                    None => false,
                },
                None => false,
            },
            None => false,
        },
        _ => false,
    }
}

/// The first node whose description names the relay together with a role
/// marker, if any.
pub open spec fn spec_find_desc_node(objs: Seq<PwObject>, lb: Seq<char>, role: Seq<char>) -> Option<
    u32,
>
    decreases objs.len(),
{
    if objs.len() == 0 {
        None
    } else if spec_desc_role_node(objs[0], lb, role) {
        Some(spec_node_id(objs[0]))
    } else {
        spec_find_desc_node(objs.drop_first(), lb, role)
    }
}

/// Whether the object is a node whose name contains the relay name.
pub open spec fn spec_node_name_contains(o: PwObject, lb: Seq<char>) -> bool {
    match o {
        PwObject::Node(n) => match n.info {
            Some(info) => match info.props {
                Some(props) => match props.node_name {
                    Some(nm) => spec_has_substring(nm@, lb),
                    None => false,
                },
                None => false,
            },
            None => false,
        },
        _ => false,
    }
}

/// Whether some port of the snapshot belongs to this node and faces this
/// direction.
pub open spec fn spec_node_has_dir_port(objs: Seq<PwObject>, node_id: u32, dir: PortDirection) -> bool {
    exists|j: int|
        0 <= j < spec_ports(objs).len() && (#[trigger] spec_ports(objs)[j]).node_id == node_id
            && spec_ports(objs)[j].direction == dir
}

/// The first node whose name contains the relay name and that owns at least
/// one port of the needed direction, if any.
pub open spec fn spec_find_name_dir_node(
    rem: Seq<PwObject>,
    lb: Seq<char>,
    objs: Seq<PwObject>,
    dir: PortDirection,
) -> Option<u32>
    decreases rem.len(),
{
    if rem.len() == 0 {
        None
    } else if spec_node_name_contains(rem[0], lb) && spec_node_has_dir_port(
        objs,
        spec_node_id(rem[0]),
        dir,
    ) {
        Some(spec_node_id(rem[0]))
    } else {
        spec_find_name_dir_node(rem.drop_first(), lb, objs, dir)
    }
}

/// One half of a named relay: prefer the node whose description carries the
/// relay name plus the role marker; fall back to a node named after the
/// relay that owns a port of the needed direction.
pub open spec fn spec_find_half_node(
    objs: Seq<PwObject>,
    lb: Seq<char>,
    role: Seq<char>,
    dir: PortDirection,
) -> Option<u32> {
    match spec_find_desc_node(objs, lb, role) {
        Some(id) => Some(id),
        None => spec_find_name_dir_node(objs, lb, objs, dir),
    }
}

/// The capture half of a named relay (role marker `input`, input ports).
pub open spec fn spec_find_capture_node(objs: Seq<PwObject>, lb: Seq<char>) -> Option<u32> {
    spec_find_half_node(objs, lb, "input"@, PortDirection::Input)
}

/// The playback half of a named relay (role marker `output`, output ports).
pub open spec fn spec_find_playback_node(objs: Seq<PwObject>, lb: Seq<char>) -> Option<u32> {
    spec_find_half_node(objs, lb, "output"@, PortDirection::Output)
}

fn node_has_dir_port(ports: &Vec<AudioPort>, node_id: u32, dir: PortDirection, objects: &Vec<PwObject>) -> (b: bool)
    requires
        ports@.map_values(|p: AudioPort| p@) == spec_ports(objects@),
    ensures
        b == spec_node_has_dir_port(objects@, node_id, dir),
{
    let ghost pv = spec_ports(objects@);
    let mut j: usize = 0;
    while j < ports.len()
        invariant
            j <= ports@.len(),
            ports@.map_values(|p: AudioPort| p@) == pv,
            pv == spec_ports(objects@),
            pv.len() == ports@.len(),
            forall|j2: int| 0 <= j2 < j ==> !((#[trigger] pv[j2]).node_id == node_id && pv[j2].direction == dir),
        decreases ports@.len() - j,
    {
        proof {
            assert(pv[j as int] == ports@[j as int]@);
        }
        if ports[j].node_id == node_id && ports[j].direction == dir {
            return true;
        }
        j = j + 1;
    }
    false
}

fn find_half_node(objects: &Vec<PwObject>, loopback_name: &str, role: &str, dir: PortDirection) -> (r: Option<u32>)
    ensures
        r == spec_find_half_node(objects@, loopback_name@, role@, dir),
{
    let mut i: usize = 0;
    proof {
        assert(objects@.skip(0) =~= objects@);
    }
    while i < objects.len()
        invariant
            i <= objects@.len(),
            spec_find_desc_node(objects@, loopback_name@, role@) == spec_find_desc_node(
                objects@.skip(i as int),
                loopback_name@,
                role@,
            ),
        decreases objects@.len() - i,
    {
        proof {
            assert(objects@.skip(i as int)[0] == objects@[i as int]);
            assert(objects@.skip(i as int).drop_first() =~= objects@.skip(i + 1 as int));
        }
        match &objects[i] {
            PwObject::Node(n) => {
                match &n.info {
                    Some(info) => match &info.props {
                        Some(props) => match &props.node_description {
                            Some(d) => {
                                if contains_substring(d.as_str(), loopback_name)
                                    && contains_substring(d.as_str(), role) {
                                    return Some(n.id);
                                }
                            },
                            None => (),
                        },
                        None => (),
                    },
                    None => (),
                }
            },
            _ => (),
        }
        i = i + 1;
    }
    proof {
        assert(objects@.skip(objects@.len() as int) =~= Seq::<PwObject>::empty());
    }
    let ports = extract_ports(objects);
    let mut i: usize = 0;
    proof {
        assert(objects@.skip(0) =~= objects@);
    }
    while i < objects.len()
        invariant
            i <= objects@.len(),
            ports@.map_values(|p: AudioPort| p@) == spec_ports(objects@),
            spec_find_desc_node(objects@, loopback_name@, role@) is None,
            spec_find_name_dir_node(objects@, loopback_name@, objects@, dir)
                == spec_find_name_dir_node(
                objects@.skip(i as int),
                loopback_name@,
                objects@,
                dir,
            ),
        decreases objects@.len() - i,
    {
        proof {
            assert(objects@.skip(i as int)[0] == objects@[i as int]);
            assert(objects@.skip(i as int).drop_first() =~= objects@.skip(i + 1 as int));
        }
        match &objects[i] {
            PwObject::Node(n) => {
                match &n.info {
                    Some(info) => match &info.props {
                        Some(props) => match &props.node_name {
                            Some(nm) => {
                                if contains_substring(nm.as_str(), loopback_name) {
                                    if node_has_dir_port(&ports, n.id, dir, objects) {
                                        return Some(n.id);
                                    }
                                }
                            },
                            None => (),
                        },
                        None => (),
                    },
                    None => (),
                }
            },
            _ => (),
        }
        i = i + 1;
    }
    proof {
        assert(objects@.skip(objects@.len() as int) =~= Seq::<PwObject>::empty());
    }
    None
}

/// Finds the capture half of a named relay: the node fed by the source.
pub fn find_loopback_capture_node(objects: &Vec<PwObject>, loopback_name: &str) -> (r: Option<u32>)
    ensures
        r == spec_find_capture_node(objects@, loopback_name@),
{
    find_half_node(objects, loopback_name, "input", PortDirection::Input)
}

/// Finds the playback half of a named relay: the node feeding a destination.
pub fn find_loopback_playback_node(objects: &Vec<PwObject>, loopback_name: &str) -> (r: Option<u32>)
    ensures
        r == spec_find_playback_node(objects@, loopback_name@),
{
    find_half_node(objects, loopback_name, "output", PortDirection::Output)
}

// ---------------------------------------------------------------------------
// Planners
// ---------------------------------------------------------------------------

/// The error text when the source or the relay capture half exposes no
/// stereo port.
pub open spec fn spec_src_lb_missing_msg(a: nat, b: nat) -> Seq<char> {
    "Could not find ports: source="@ + spec_dec(a) + ", loopback="@ + spec_dec(b)
}

/// The error text when the relay playback half or the sink exposes no
/// stereo port.
pub open spec fn spec_lb_sink_missing_msg(a: nat, b: nat) -> Seq<char> {
    "Could not find ports: loopback="@ + spec_dec(a) + ", sink="@ + spec_dec(b)
}

/// The error text when the relay playback half or the recording destination
/// exposes no stereo port.
pub open spec fn spec_rec_missing_msg(a: nat, dest: u32, b: nat) -> Seq<char> {
    "Could not find ports for loopback ("@ + spec_dec(a) + " ports) or destination node "@
        + spec_dec(dest as nat) + " ("@ + spec_dec(b) + " ports)"@
}

/// What `plan_connect_source_to_loopback` promises, case by case.
pub open spec fn spec_plan_source_to_loopback_post(
    n: u32,
    lb: Seq<char>,
    objs: Seq<PwObject>,
    r: Result<Vec<SavedLink>, PwSplitterError>,
) -> bool {
    let ps = spec_ports(objs);
    match spec_find_capture_node(objs, lb) {
        None => r matches Err(PwSplitterError::NodeNotFound(m)) && m@ == "loopback capture "@ + lb,
        Some(cap) => {
            let sp = spec_stereo_ports(ps, n, PortDirection::Output);
            let lp = spec_stereo_ports(ps, cap, PortDirection::Input);
            if sp.len() == 0 || lp.len() == 0 {
                r matches Err(PwSplitterError::LinkCreationFailed(m)) && m@
                    == spec_src_lb_missing_msg(sp.len(), lp.len())
            } else {
                match spec_get_node_name(objs, n) {
                    None => r matches Err(PwSplitterError::NodeNotFound(m)) && m@ == "source node "@
                        + spec_dec(n as nat),
                    Some(sn) => match spec_get_node_name(objs, cap) {
                        None => r matches Err(PwSplitterError::NodeNotFound(m)) && m@
                            == "loopback node "@ + spec_dec(cap as nat),
                        Some(ln) => r matches Ok(v) && v@.map_values(|x: SavedLink| x@)
                            == spec_name_pairs(sp, lp, sn, ln),
                    },
                }
            }
        },
    }
}

/// Plans the wiring of a source's stereo outputs into a relay's capture
/// inputs: one link per matching channel, both sides addressed by name.
pub fn plan_connect_source_to_loopback(
    source_node_id: u32,
    loopback_name: &str,
    objects: &Vec<PwObject>,
) -> (r: Result<Vec<SavedLink>, PwSplitterError>)
    ensures
        spec_plan_source_to_loopback_post(source_node_id, loopback_name@, objects@, r),
{
    let cap = match find_loopback_capture_node(objects, loopback_name) {
        Some(id) => id,
        None => {
            let m = String::from_str("loopback capture ").concat(loopback_name);
            proof {
                assert(m@ =~= "loopback capture "@ + loopback_name@);
            }
            return Err(PwSplitterError::NodeNotFound(m));
        },
    };
    let ports = extract_ports(objects);
    let sp = stereo_ports_of_node(&ports, source_node_id, PortDirection::Output);
    let lp = stereo_ports_of_node(&ports, cap, PortDirection::Input);
    if sp.len() == 0 || lp.len() == 0 {
        let a = u64_to_string(sp.len() as u64);
        let b = u64_to_string(lp.len() as u64);
        let m = String::from_str("Could not find ports: source=").concat(a.as_str());
        let m = m.concat(", loopback=").concat(b.as_str());
        proof {
            assert(m@ =~= spec_src_lb_missing_msg(
                sp@.map_values(|p: AudioPort| p@).len(),
                lp@.map_values(|p: AudioPort| p@).len(),
            ));
        }
        return Err(PwSplitterError::LinkCreationFailed(m));
    }
    let sn = match get_node_name(objects, source_node_id) {
        Some(s) => s,
        None => {
            let d = u64_to_string(source_node_id as u64);
            let m = String::from_str("source node ").concat(d.as_str());
            proof {
                assert(m@ =~= "source node "@ + spec_dec(source_node_id as nat));
            }
            return Err(PwSplitterError::NodeNotFound(m));
        },
    };
    let ln = match get_node_name(objects, cap) {
        Some(s) => s,
        None => {
            let d = u64_to_string(cap as u64);
            let m = String::from_str("loopback node ").concat(d.as_str());
            proof {
                assert(m@ =~= "loopback node "@ + spec_dec(cap as nat));
            }
            return Err(PwSplitterError::NodeNotFound(m));
        },
    };
    let pairs = build_name_pairs(&sp, &lp, sn.as_str(), ln.as_str());
    Ok(pairs)
}

/// What `plan_connect_loopback_to_sink` promises, case by case.
pub open spec fn spec_plan_loopback_to_sink_post(
    lb: Seq<char>,
    sink: Seq<char>,
    objs: Seq<PwObject>,
    r: Result<Vec<SavedLink>, PwSplitterError>,
) -> bool {
    let ps = spec_ports(objs);
    match spec_find_playback_node(objs, lb) {
        None => r matches Err(PwSplitterError::NodeNotFound(m)) && m@ == "loopback playback "@ + lb,
        Some(play) => match spec_find_node_by_name(objs, sink) {
            None => r matches Err(PwSplitterError::NodeNotFound(m)) && m@ == sink,
            Some(sink_id) => {
                let lp = spec_stereo_ports(ps, play, PortDirection::Output);
                let sp = spec_stereo_ports(ps, sink_id, PortDirection::Input);
                if lp.len() == 0 || sp.len() == 0 {
                    r matches Err(PwSplitterError::LinkCreationFailed(m)) && m@
                        == spec_lb_sink_missing_msg(lp.len(), sp.len())
                } else {
                    match spec_get_node_name(objs, play) {
                        None => r matches Err(PwSplitterError::NodeNotFound(m)) && m@
                            == "loopback node "@ + spec_dec(play as nat),
                        Some(ln) => r matches Ok(v) && v@.map_values(|x: SavedLink| x@)
                            == spec_name_pairs(lp, sp, ln, sink),
                    }
                }
            },
        },
    }
}

/// Plans the wiring of a relay's playback outputs into a sink's inputs:
/// one link per matching channel, the sink addressed by the given name.
pub fn plan_connect_loopback_to_sink(
    loopback_name: &str,
    sink_name: &str,
    objects: &Vec<PwObject>,
) -> (r: Result<Vec<SavedLink>, PwSplitterError>)
    ensures
        spec_plan_loopback_to_sink_post(loopback_name@, sink_name@, objects@, r),
{
    let play = match find_loopback_playback_node(objects, loopback_name) {
        Some(id) => id,
        None => {
            let m = String::from_str("loopback playback ").concat(loopback_name);
            proof {
                assert(m@ =~= "loopback playback "@ + loopback_name@);
            }
            return Err(PwSplitterError::NodeNotFound(m));
        },
    };
    let sink_id = match find_node_by_name(objects, sink_name) {
        Some(id) => id,
        None => {
            return Err(PwSplitterError::NodeNotFound(sink_name.to_owned()));
        },
    };
    let ports = extract_ports(objects);
    let lp = stereo_ports_of_node(&ports, play, PortDirection::Output);
    let sp = stereo_ports_of_node(&ports, sink_id, PortDirection::Input);
    if lp.len() == 0 || sp.len() == 0 {
        let a = u64_to_string(lp.len() as u64);
        let b = u64_to_string(sp.len() as u64);
        let m = String::from_str("Could not find ports: loopback=").concat(a.as_str());
        let m = m.concat(", sink=").concat(b.as_str());
        proof {
            assert(m@ =~= spec_lb_sink_missing_msg(
                lp@.map_values(|p: AudioPort| p@).len(),
                sp@.map_values(|p: AudioPort| p@).len(),
            ));
        }
        return Err(PwSplitterError::LinkCreationFailed(m));
    }
    let ln = match get_node_name(objects, play) {
        Some(s) => s,
        None => {
            let d = u64_to_string(play as u64);
            let m = String::from_str("loopback node ").concat(d.as_str());
            proof {
                assert(m@ =~= "loopback node "@ + spec_dec(play as nat));
            }
            return Err(PwSplitterError::NodeNotFound(m));
        },
    };
    let pairs = build_name_pairs(&lp, &sp, ln.as_str(), sink_name);
    Ok(pairs)
}

/// What `plan_connect_loopback_to_recording` promises, case by case.
pub open spec fn spec_plan_loopback_to_recording_post(
    lb: Seq<char>,
    dest: u32,
    objs: Seq<PwObject>,
    r: Result<Vec<IdLinkPair>, PwSplitterError>,
) -> bool {
    let ps = spec_ports(objs);
    let lp = match spec_find_node_by_name(objs, lb) {
        Some(id) => spec_stereo_ports(ps, id, PortDirection::Output),
        None => Seq::<AudioPortV>::empty(),
    };
    let dp = spec_stereo_ports(ps, dest, PortDirection::Input);
    if lp.len() == 0 || dp.len() == 0 {
        r matches Err(PwSplitterError::LinkCreationFailed(m)) && m@ == spec_rec_missing_msg(
            lp.len(),
            dest,
            dp.len(),
        )
    } else {
        r matches Ok(v) && v@.map_values(|x: IdLinkPair| x@) == spec_id_pairs(lp, dp, lb)
    }
}

/// Plans the wiring of a relay's playback outputs into a recording
/// destination addressed by node id: duplicate node names make name
/// addressing ambiguous on the input side, ids are not.
pub fn plan_connect_loopback_to_recording(
    loopback_playback_name: &str,
    dest_node_id: u32,
    objects: &Vec<PwObject>,
) -> (r: Result<Vec<IdLinkPair>, PwSplitterError>)
    ensures
        spec_plan_loopback_to_recording_post(loopback_playback_name@, dest_node_id, objects@, r),
{
    let ports = extract_ports(objects);
    let lp = match find_node_by_name(objects, loopback_playback_name) {
        Some(id) => stereo_ports_of_node(&ports, id, PortDirection::Output),
        None => Vec::new(),
    };
    let dp = stereo_ports_of_node(&ports, dest_node_id, PortDirection::Input);
    if lp.len() == 0 || dp.len() == 0 {
        let a = u64_to_string(lp.len() as u64);
        let b = u64_to_string(dp.len() as u64);
        let d = u64_to_string(dest_node_id as u64);
        let m = String::from_str("Could not find ports for loopback (").concat(a.as_str());
        let m = m.concat(" ports) or destination node ").concat(d.as_str());
        let m = m.concat(" (").concat(b.as_str()).concat(" ports)");
        proof {
            assert(m@ =~= spec_rec_missing_msg(
                lp@.map_values(|p: AudioPort| p@).len(),
                dest_node_id,
                dp@.map_values(|p: AudioPort| p@).len(),
            ));
        }
        return Err(PwSplitterError::LinkCreationFailed(m));
    }
    let pairs = build_id_pairs(&lp, &dp, loopback_playback_name);
    Ok(pairs)
}

/// What `plan_disconnect` promises: no plan when either node's name cannot
/// be resolved, else exactly the matching stereo pairs.
pub open spec fn spec_plan_disconnect_post(
    n: u32,
    t: u32,
    objs: Seq<PwObject>,
    r: Option<Vec<SavedLink>>,
) -> bool {
    let ps = spec_ports(objs);
    match spec_get_node_name(objs, n) {
        None => r is None,
        Some(sn) => match spec_get_node_name(objs, t) {
            None => r is None,
            Some(tn) => r matches Some(v) && v@.map_values(|x: SavedLink| x@) == spec_name_pairs(
                spec_stereo_ports(ps, n, PortDirection::Output),
                spec_stereo_ports(ps, t, PortDirection::Input),
                sn,
                tn,
            ),
        },
    }
}

/// Plans the severing of one source-to-target connection: the matching
/// stereo pairs between the two nodes, addressed by name, in the exact form
/// that goes into the split record.  `None` when a node name cannot be
/// resolved; such a connection is skipped, not fatal.
pub fn plan_disconnect(
    source_node_id: u32,
    target_node_id: u32,
    objects: &Vec<PwObject>,
) -> (r: Option<Vec<SavedLink>>)
    ensures
        spec_plan_disconnect_post(source_node_id, target_node_id, objects@, r),
{
    let sn = match get_node_name(objects, source_node_id) {
        Some(s) => s,
        None => {
            return None;
        },
    };
    let tn = match get_node_name(objects, target_node_id) {
        Some(s) => s,
        None => {
            return None;
        },
    };
    let ports = extract_ports(objects);
    let sp = stereo_ports_of_node(&ports, source_node_id, PortDirection::Output);
    let tp = stereo_ports_of_node(&ports, target_node_id, PortDirection::Input);
    Some(build_name_pairs(&sp, &tp, sn.as_str(), tn.as_str()))
}

} // verus!
